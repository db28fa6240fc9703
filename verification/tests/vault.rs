use base64::engine::general_purpose::STANDARD;
use base64::Engine;
use pi_omp_setup::json::Json;
use pi_omp_setup::vault::{
    check_bundle, open, open_bundle, open_envelope, seal, seal_with, Envelope, VaultError,
    MAX_BUNDLE_BYTES,
};
use serde_json::Value;

fn to_json(v: &Value) -> Json {
    match v {
        Value::Null => Json::Null,
        Value::Bool(b) => Json::Bool(*b),
        Value::Number(n) => Json::Number(n.to_string()),
        Value::String(s) => Json::Str(s.clone()),
        Value::Array(a) => {
            let mut j = Json::new_array();
            for x in a {
                j.push(to_json(x));
            }
            j
        }
        Value::Object(m) => {
            let mut j = Json::new_object();
            for (k, x) in m {
                j.set(k, to_json(x));
            }
            j
        }
    }
}

fn envelope_value(e: &Envelope) -> Value {
    let mut m = serde_json::Map::new();
    m.insert("format".into(), Value::String(e.format.clone()));
    m.insert("kdf".into(), Value::String(e.kdf.clone()));
    m.insert("memory_kib".into(), Value::from(e.memory_kib));
    m.insert("iterations".into(), Value::from(e.iterations));
    m.insert("parallelism".into(), Value::from(e.parallelism));
    m.insert("salt".into(), Value::String(e.salt.clone()));
    m.insert("nonce".into(), Value::String(e.nonce.clone()));
    m.insert("ciphertext".into(), Value::String(e.ciphertext.clone()));
    Value::Object(m)
}

fn sealed_bytes(plaintext: &[u8], password: &[u8]) -> Result<Vec<u8>, VaultError> {
    let e = seal(plaintext, password)?;
    Ok(serde_json::to_vec_pretty(&envelope_value(&e)).unwrap())
}

fn open_bytes(bundle: &[u8], password: &[u8]) -> Result<Vec<u8>, VaultError> {
    check_bundle(bundle.len(), password)?;
    let value: Value = serde_json::from_slice(bundle).map_err(|_| VaultError::InvalidFormat)?;
    open(bundle.len(), &to_json(&value), password)
}

// Each key derivation takes 64 MiB and three passes (several seconds in an
// unoptimized build), so the round trip and the refusals are split over two
// tests with three derivations each.
#[test]
fn round_trip_randomized_and_authenticated() {
    let plaintext = br#"{"endpoint":"https://example.invalid/v1","api_key":"test-key","model_id":"hotschmoe-dd"}"#;
    let passphrase = b"a-long-test-only-passphrase";
    let first = sealed_bytes(plaintext, passphrase).unwrap();
    let second = sealed_bytes(plaintext, passphrase).unwrap();
    assert_ne!(first, second);
    assert!(!String::from_utf8_lossy(&first).contains("example.invalid"));
    assert!(!String::from_utf8_lossy(&first).contains("test-key"));
    assert_eq!(&*open_bytes(&first, passphrase).unwrap(), plaintext);
}

#[test]
fn round_trip_refuses_wrong_passphrase_and_changed_ciphertext() {
    let plaintext = br#"{"endpoint":"https://example.invalid/v1","api_key":"test-key","model_id":"hotschmoe-dd"}"#;
    let passphrase = b"a-long-test-only-passphrase";
    let first = sealed_bytes(plaintext, passphrase).unwrap();
    assert!(open_bytes(&first, b"wrong-password").is_err());
    let mut envelope: Value = serde_json::from_slice(&first).unwrap();
    let mut ciphertext = STANDARD
        .decode(envelope["ciphertext"].as_str().unwrap())
        .unwrap();
    ciphertext[0] ^= 1;
    envelope["ciphertext"] = STANDARD.encode(ciphertext).into();
    assert!(open_bytes(&serde_json::to_vec(&envelope).unwrap(), passphrase).is_err());
}

#[test]
fn rejects_invalid_sizes_and_kdf_without_doing_work() {
    assert!(open_bytes(&vec![0; MAX_BUNDLE_BYTES + 1], b"test").is_err());
    assert!(open_bytes(b"{}", b"test").is_err());
    assert!(seal(b"test", b"").is_err());
    let mut envelope: Value =
        serde_json::from_slice(&sealed_bytes(b"test", b"test").unwrap()).unwrap();
    envelope["memory_kib"] = u32::MAX.into();
    assert!(open_bytes(&serde_json::to_vec(&envelope).unwrap(), b"test").is_err());
}

#[test]
fn sealing_with_fixed_randomness_is_deterministic_and_opens() {
    let salt = [7u8; 16];
    let nonce = [9u8; 12];
    let a = seal_with(b"hello", b"pw", &salt, &nonce).unwrap();
    let b = seal_with(b"hello", b"pw", &salt, &nonce).unwrap();
    assert_eq!(a.ciphertext, b.ciphertext);
    assert_eq!(a.format, "pi-omp-setup-v1");
    assert_eq!(a.kdf, "argon2id-v19");
    assert_eq!((a.memory_kib, a.iterations, a.parallelism), (65536, 3, 1));
    assert_eq!(a.salt, STANDARD.encode(salt));
    assert_eq!(a.nonce, STANDARD.encode(nonce));
    // the ciphertext carries the 16-byte tag after the 5 plaintext bytes
    assert_eq!(STANDARD.decode(&a.ciphertext).unwrap().len(), 5 + 16);
    // base64 text: 24, 16 and 4 * ceil(21 / 3) = 28 characters
    assert_eq!((a.salt.len(), a.nonce.len(), a.ciphertext.len()), (24, 16, 28));
    assert_eq!(open_envelope(&a, b"pw").unwrap(), b"hello");
}

#[test]
fn each_envelope_check_reports_its_error() {
    let e = seal_with(b"data", b"pw", &[1u8; 16], &[2u8; 12]).unwrap();
    let mut bad = e.clone();
    bad.format = "other".into();
    assert_eq!(open_envelope(&bad, b"pw"), Err(VaultError::Unsupported));
    let mut bad = e.clone();
    bad.parallelism = 2;
    assert_eq!(open_envelope(&bad, b"pw"), Err(VaultError::Unsupported));
    let mut bad = e.clone();
    bad.salt = "***".into();
    assert_eq!(open_envelope(&bad, b"pw"), Err(VaultError::InvalidSalt));
    let mut bad = e.clone();
    bad.nonce = "***".into();
    assert_eq!(open_envelope(&bad, b"pw"), Err(VaultError::InvalidNonce));
    let mut bad = e.clone();
    bad.ciphertext = "***".into();
    assert_eq!(open_envelope(&bad, b"pw"), Err(VaultError::InvalidCiphertext));
    let mut bad = e.clone();
    bad.salt = STANDARD.encode([1u8; 15]);
    assert_eq!(open_envelope(&bad, b"pw"), Err(VaultError::InvalidLengths));
    let mut bad = e.clone();
    bad.ciphertext = STANDARD.encode([1u8; 15]);
    assert_eq!(open_envelope(&bad, b"pw"), Err(VaultError::InvalidLengths));
    assert_eq!(open_envelope(&e, b""), Err(VaultError::BundleRejected));
    assert_eq!(open_envelope(&e, b"other"), Err(VaultError::Decryption));
    assert_eq!(
        seal(&[0u8; 32769], b"pw").unwrap_err(),
        VaultError::InputRejected
    );
    assert_eq!(check_bundle(10, b""), Err(VaultError::BundleRejected));
    assert_eq!(check_bundle(MAX_BUNDLE_BYTES, b"x"), Ok(()));
    assert_eq!(
        VaultError::Decryption.message(),
        "Incorrect passphrase or damaged encrypted configuration"
    );
}

#[test]
fn envelope_documents_are_read_strictly() {
    let e = seal_with(b"data", b"pw", &[1u8; 16], &[2u8; 12]).unwrap();
    let v = envelope_value(&e);
    let read = Envelope::from_json(&to_json(&v)).unwrap();
    assert_eq!(read.ciphertext, e.ciphertext);
    assert_eq!(read.memory_kib, 65536);
    let mut extra = v.clone();
    extra["unknown"] = Value::Bool(true);
    assert_eq!(
        Envelope::from_json(&to_json(&extra)).err(),
        Some(VaultError::InvalidFormat)
    );
    let mut missing = v.clone();
    missing.as_object_mut().unwrap().remove("nonce");
    assert!(Envelope::from_json(&to_json(&missing)).is_err());
    let mut negative = v.clone();
    negative["iterations"] = Value::from(-3);
    assert!(Envelope::from_json(&to_json(&negative)).is_err());
    let mut huge = v.clone();
    huge["iterations"] = Value::from(u64::from(u32::MAX) + 1);
    assert!(Envelope::from_json(&to_json(&huge)).is_err());
    let as_array = Value::Array(vec![
        v["format"].clone(),
        v["kdf"].clone(),
        v["memory_kib"].clone(),
        v["iterations"].clone(),
        v["parallelism"].clone(),
        v["salt"].clone(),
        v["nonce"].clone(),
        v["ciphertext"].clone(),
    ]);
    let read = Envelope::from_json(&to_json(&as_array)).unwrap();
    assert_eq!(open_envelope(&read, b"pw").unwrap(), b"data");
}

#[test]
fn bundles_open_from_their_bytes() {
    let e = seal_with(b"{\"k\":1}", b"pw", &[3u8; 16], &[4u8; 12]).unwrap();
    let bytes = serde_json::to_vec_pretty(&envelope_value(&e)).unwrap();
    assert_eq!(open_bundle(&bytes, b"pw").unwrap(), b"{\"k\":1}");
    assert_eq!(open_bundle(b"not json", b"pw"), Err(VaultError::InvalidFormat));
    assert_eq!(open_bundle(b"[1,2]", b"pw"), Err(VaultError::InvalidFormat));
    assert_eq!(open_bundle(&bytes, b""), Err(VaultError::BundleRejected));
    assert_eq!(
        open_bundle(&vec![b' '; MAX_BUNDLE_BYTES + 1], b"pw"),
        Err(VaultError::BundleRejected)
    );
}
