//! The encrypted deployment bundle: AES-256-GCM under an Argon2id key
//! derived from the setup passphrase and a random salt.
use vstd::prelude::*;
use aes_gcm::aead::Aead;
use aes_gcm::KeyInit;
use base64::Engine;
use rand::RngCore;
use zeroize::Zeroize;
use crate::json::{text_eq, Json, JsonV, str_of, u32_of, parse_u32};
use crate::codec::{parse_json_bytes, parsed_json};

verus! {

/// The bundle format tag.
pub const FORMAT: &'static str = "pi-omp-setup-v1";

/// The key derivation tag.
pub const KDF: &'static str = "argon2id-v19";

/// Argon2id memory cost, in KiB.
pub const MEMORY_KIB: u32 = 65536;

/// Argon2id passes.
pub const ITERATIONS: u32 = 3;

/// Argon2id lanes.
pub const PARALLELISM: u32 = 1;

/// The largest bundle accepted, in bytes; a configuration may fill half of it.
pub const MAX_BUNDLE_BYTES: usize = 65536;

/// The largest plaintext sealed, in bytes.
pub const MAX_PLAINTEXT_BYTES: usize = 32768;

pub const SALT_LEN: usize = 16;

pub const NONCE_LEN: usize = 12;

pub const KEY_LEN: usize = 32;

/// The AES-GCM authentication tag appended to every ciphertext.
pub const TAG_LEN: usize = 16;

/// The longest message AES-GCM processes (and the longest associated data).
pub open spec fn gcm_max() -> int {
    0x10_0000_0000
}

/// The associated data bound to every bundle: `pi-omp-setup/config/v1`.
pub open spec fn aad_spec() -> Seq<u8> {
    seq![
        112u8, 105, 45, 111, 109, 112, 45, 115, 101, 116, 117, 112, 47, 99, 111, 110, 102, 105,
        103, 47, 118, 49,
    ]
}

fn aad() -> (r: Vec<u8>)
    ensures
        r@ == aad_spec(),
{
    let r = vec![
        112u8, 105, 45, 111, 109, 112, 45, 115, 101, 116, 117, 112, 47, 99, 111, 110, 102, 105,
        103, 47, 118, 49,
    ];
    assert(r@ =~= aad_spec());
    r
}

/// Why sealing or opening a bundle failed. No variant carries any part of
/// the configuration or the passphrase.
#[derive(PartialEq, Eq, Structural, Clone, Copy, Debug)]
pub enum VaultError {
    InputRejected,
    Randomness,
    KeyDerivation,
    Encryption,
    BundleRejected,
    InvalidFormat,
    Unsupported,
    InvalidSalt,
    InvalidNonce,
    InvalidCiphertext,
    InvalidLengths,
    Decryption,
}

pub open spec fn vault_message(e: VaultError) -> Seq<char> {
    match e {
        VaultError::InputRejected => "Configuration is too large or passphrase is empty"@,
        VaultError::Randomness => "Cannot gather random bytes"@,
        VaultError::KeyDerivation => "Password derivation failed"@,
        VaultError::Encryption => "Configuration encryption failed"@,
        VaultError::BundleRejected => "Invalid bundle size or empty passphrase"@,
        VaultError::InvalidFormat => "Invalid encrypted configuration format"@,
        VaultError::Unsupported => "Unsupported encrypted configuration format or KDF parameters"@,
        VaultError::InvalidSalt => "Invalid salt encoding"@,
        VaultError::InvalidNonce => "Invalid nonce encoding"@,
        VaultError::InvalidCiphertext => "Invalid ciphertext encoding"@,
        VaultError::InvalidLengths => "Invalid encrypted configuration lengths"@,
        VaultError::Decryption => "Incorrect passphrase or damaged encrypted configuration"@,
    }
}

impl VaultError {
    /// The message shown for this error.
    pub fn message(&self) -> (r: &'static str)
        ensures
            r@ == vault_message(*self),
    {
        match self {
            VaultError::InputRejected => "Configuration is too large or passphrase is empty",
            VaultError::Randomness => "Cannot gather random bytes",
            VaultError::KeyDerivation => "Password derivation failed",
            VaultError::Encryption => "Configuration encryption failed",
            VaultError::BundleRejected => "Invalid bundle size or empty passphrase",
            VaultError::InvalidFormat => "Invalid encrypted configuration format",
            VaultError::Unsupported =>
                "Unsupported encrypted configuration format or KDF parameters",
            VaultError::InvalidSalt => "Invalid salt encoding",
            VaultError::InvalidNonce => "Invalid nonce encoding",
            VaultError::InvalidCiphertext => "Invalid ciphertext encoding",
            VaultError::InvalidLengths => "Invalid encrypted configuration lengths",
            VaultError::Decryption => "Incorrect passphrase or damaged encrypted configuration",
        }
    }
}

// ---------------------------------------------------------------------------
// The outside crates
#[verifier::external_type_specification]
#[verifier::external_body]
pub struct ExArgon2Error(argon2::Error);

#[verifier::external_type_specification]
#[verifier::external_body]
pub struct ExAeadError(aes_gcm::Error);

#[verifier::external_type_specification]
#[verifier::external_body]
pub struct ExDecodeError(base64::DecodeError);

#[verifier::external_type_specification]
#[verifier::external_body]
pub struct ExRandError(rand::Error);

/// What Argon2id (version 0x13) derives from `password` and `salt` with the
/// given costs and output length.
pub uninterp spec fn argon2id_output(
    m_cost: u32,
    t_cost: u32,
    p_cost: u32,
    out_len: usize,
    password: Seq<u8>,
    salt: Seq<u8>,
) -> Seq<u8>;

/// The costs and output length that `argon2::Params::new` accepts.
pub open spec fn argon2_params_ok(m_cost: u32, t_cost: u32, p_cost: u32, out_len: usize) -> bool {
    &&& m_cost >= 8
    &&& m_cost >= 8 * p_cost
    &&& t_cost >= 1
    &&& 1 <= p_cost <= 0xFF_FFFF
    &&& 4 <= out_len <= 0xFFFF_FFFF
}

/// Builds `argon2::Params::new(m_cost, t_cost, p_cost, Some(out_len))`, then
/// `Argon2::new(Algorithm::Argon2id, Version::V0x13, params)`, and calls its
/// `hash_password_into` with an output buffer of `out_len` bytes. The contract
/// claims what the crate's source shows: the call succeeds exactly when the
/// parameters are in range, the password has at most 2^32 - 1 bytes and the
/// salt between 8 and 2^32 - 1 bytes, and the output is the value of the name
/// `argon2id_output` at the arguments, of `out_len` bytes. The memory cost is
/// bounded by the one this library uses: the call allocates that many KiB.
#[verifier::external_body]
fn argon2id_hash(
    m_cost: u32,
    t_cost: u32,
    p_cost: u32,
    out_len: usize,
    password: &[u8],
    salt: &[u8],
) -> (r: Result<Vec<u8>, argon2::Error>)
    requires
        m_cost <= MEMORY_KIB,
        p_cost <= 0xFF_FFFF,
        out_len <= 0xFFFF_FFFF,
    ensures
        r is Ok <==> (argon2_params_ok(m_cost, t_cost, p_cost, out_len) && password.len()
            <= 0xFFFF_FFFF && 8 <= salt.len() <= 0xFFFF_FFFF),
        r matches Ok(k) ==> (k@ == argon2id_output(m_cost, t_cost, p_cost, out_len, password@, salt@)
            && k@.len() == out_len),
{
    let params = argon2::Params::new(m_cost, t_cost, p_cost, Some(out_len))?;
    let argon = argon2::Argon2::new(argon2::Algorithm::Argon2id, argon2::Version::V0x13, params);
    let mut out = vec![0u8; out_len];
    argon.hash_password_into(password, salt, &mut out)?;
    Ok(out)
}

/// What AES-256-GCM encryption of `msg` under `key` and `nonce`, with
/// associated data `aad`, returns: the ciphertext followed by the tag.
pub uninterp spec fn aes256gcm_seal(key: Seq<u8>, nonce: Seq<u8>, msg: Seq<u8>, aad: Seq<u8>) -> Seq<
    u8,
>;

/// Calls `Aes256Gcm::new` on the key and `encrypt` with the nonce and a
/// `Payload` of `msg` and `aad`. The contract claims what the crate's source
/// shows: encryption fails only for a message or associated data over 2^36
/// bytes, and otherwise returns the value of the name `aes256gcm_seal`, which
/// is the message's length plus the 16-byte tag long.
#[verifier::external_body]
fn aes256gcm_encrypt(key: &[u8], nonce: &[u8], msg: &[u8], aad: &[u8]) -> (r: Result<
    Vec<u8>,
    aes_gcm::Error,
>)
    requires
        key.len() == KEY_LEN,
        nonce.len() == NONCE_LEN,
    ensures
        r is Ok <==> (msg.len() <= gcm_max() && aad.len() <= gcm_max()),
        r matches Ok(c) ==> (c@ == aes256gcm_seal(key@, nonce@, msg@, aad@) && c@.len() == msg.len()
            + TAG_LEN),
{
    let cipher = aes_gcm::Aes256Gcm::new(key.into());
    cipher.encrypt(nonce.into(), aes_gcm::aead::Payload { msg, aad })
}

/// Calls `Aes256Gcm::new` on the key and `decrypt` with the nonce and a
/// `Payload` of `ct` and `aad`. The contract claims the two properties of an
/// authenticated cipher that the callers need: what decryption returns
/// encrypts again to `ct` (AES-GCM is deterministic given key and nonce), and
/// decryption of what encryption returned gives the message back. It does not
/// say which error comes for other input.
#[verifier::external_body]
fn aes256gcm_decrypt(key: &[u8], nonce: &[u8], ct: &[u8], aad: &[u8]) -> (r: Result<
    Vec<u8>,
    aes_gcm::Error,
>)
    requires
        key.len() == KEY_LEN,
        nonce.len() == NONCE_LEN,
    ensures
        r matches Ok(p) ==> (p@.len() <= gcm_max() ==> ct@ == aes256gcm_seal(
            key@,
            nonce@,
            p@,
            aad@,
        )),
        forall|p: Seq<u8>|
            (p.len() <= gcm_max() && aad.len() <= gcm_max() && ct@ == #[trigger] aes256gcm_seal(
                key@,
                nonce@,
                p,
                aad@,
            ) ==> (r is Ok && r->Ok_0@ == p)),
{
    let cipher = aes_gcm::Aes256Gcm::new(key.into());
    cipher.decrypt(nonce.into(), aes_gcm::aead::Payload { msg: ct, aad })
}

/// What the standard base64 engine (with padding) encodes `bytes` to.
pub uninterp spec fn b64_encode(bytes: Seq<u8>) -> Seq<char>;

/// What the standard base64 engine decodes `text` to; `None` where it
/// refuses the text.
pub uninterp spec fn b64_decode(text: Seq<char>) -> Option<Seq<u8>>;

/// Calls `base64::engine::general_purpose::STANDARD.encode`. The contract
/// claims that the result is the value of the name `b64_encode`, of
/// `4 * ceil(n / 3)` characters for `n` bytes (`base64::encoded_len` with
/// padding).
#[verifier::external_body]
fn base64_encode(bytes: &[u8]) -> (r: String)
    requires
        bytes.len() <= usize::MAX / 2,
    ensures
        r@ == b64_encode(bytes@),
        r@.len() == 4 * ((bytes.len() + 2) / 3),
{
    base64::engine::general_purpose::STANDARD.encode(bytes)
}

/// Calls `base64::engine::general_purpose::STANDARD.decode`. The contract
/// claims that the result is the value of the name `b64_decode`, and that
/// decoding what `STANDARD.encode` produced gives the bytes back.
#[verifier::external_body]
fn base64_decode(text: &str) -> (r: Result<Vec<u8>, base64::DecodeError>)
    ensures
        b64_decode(text@) is Some <==> r is Ok,
        r matches Ok(v) ==> b64_decode(text@) == Some(v@),
        forall|b: Seq<u8>| text@ == #[trigger] b64_encode(b) ==> (r is Ok && r->Ok_0@ == b),
{
    base64::engine::general_purpose::STANDARD.decode(text)
}

/// What the URL-safe base64 engine without padding encodes `bytes` to.
pub uninterp spec fn b64url_encode(bytes: Seq<u8>) -> Seq<char>;

/// Calls `base64::engine::general_purpose::URL_SAFE_NO_PAD.encode`. The
/// contract claims that the result is the value of the name `b64url_encode`,
/// of `ceil(4 * n / 3)` characters for `n` bytes (`base64::encoded_len`
/// without padding).
#[verifier::external_body]
pub(crate) fn base64_url_encode(bytes: &[u8]) -> (r: String)
    requires
        bytes.len() <= usize::MAX / 2,
    ensures
        r@ == b64url_encode(bytes@),
        r@.len() == (4 * bytes.len() + 2) / 3,
{
    base64::engine::general_purpose::URL_SAFE_NO_PAD.encode(bytes)
}

/// Calls `zeroize::Zeroize::zeroize` on the buffer, which overwrites its bytes
/// with zeros and leaves it empty.
#[verifier::external_body]
pub(crate) fn wipe(buf: &mut Vec<u8>)
    ensures
        final(buf)@ == Seq::<u8>::empty(),
{
    buf.zeroize();
}

/// Fills `n` bytes from the operating system's random number generator
/// (`rand::rngs::OsRng.try_fill_bytes`). The bytes are not named: the
/// contract claims only their number.
#[verifier::external_body]
pub(crate) fn random_bytes(n: usize) -> (r: Result<Vec<u8>, rand::Error>)
    ensures
        r matches Ok(v) ==> v@.len() == n,
{
    let mut v = vec![0u8; n];
    rand::rngs::OsRng.try_fill_bytes(&mut v)?;
    Ok(v)
}


// ---------------------------------------------------------------------------
// The envelope
/// The public, encrypted form of a configuration.
#[derive(Clone, Debug)]
pub struct Envelope {
    pub format: String,
    pub kdf: String,
    pub memory_kib: u32,
    pub iterations: u32,
    pub parallelism: u32,
    pub salt: String,
    pub nonce: String,
    pub ciphertext: String,
}

pub struct EnvelopeV {
    pub format: Seq<char>,
    pub kdf: Seq<char>,
    pub memory_kib: u32,
    pub iterations: u32,
    pub parallelism: u32,
    pub salt: Seq<char>,
    pub nonce: Seq<char>,
    pub ciphertext: Seq<char>,
}

impl View for Envelope {
    type V = EnvelopeV;

    open spec fn view(&self) -> EnvelopeV {
        EnvelopeV {
            format: self.format@,
            kdf: self.kdf@,
            memory_kib: self.memory_kib,
            iterations: self.iterations,
            parallelism: self.parallelism,
            salt: self.salt@,
            nonce: self.nonce@,
            ciphertext: self.ciphertext@,
        }
    }
}

/// The key for a passphrase and salt.
pub open spec fn kdf_key(password: Seq<u8>, salt: Seq<u8>) -> Seq<u8> {
    argon2id_output(MEMORY_KIB, ITERATIONS, PARALLELISM, KEY_LEN, password, salt)
}

/// The ciphertext (with tag) of a configuration.
pub open spec fn sealed_ciphertext(
    plaintext: Seq<u8>,
    password: Seq<u8>,
    salt: Seq<u8>,
    nonce: Seq<u8>,
) -> Seq<u8> {
    aes256gcm_seal(kdf_key(password, salt), nonce, plaintext, aad_spec())
}

/// The envelope that sealing `plaintext` under `password` with this salt and
/// nonce produces.
pub open spec fn sealed_envelope(
    plaintext: Seq<u8>,
    password: Seq<u8>,
    salt: Seq<u8>,
    nonce: Seq<u8>,
) -> EnvelopeV {
    EnvelopeV {
        format: FORMAT@,
        kdf: KDF@,
        memory_kib: MEMORY_KIB,
        iterations: ITERATIONS,
        parallelism: PARALLELISM,
        salt: b64_encode(salt),
        nonce: b64_encode(nonce),
        ciphertext: b64_encode(sealed_ciphertext(plaintext, password, salt, nonce)),
    }
}

/// Derives the 32-byte AES key from the passphrase and salt with Argon2id
/// (64 MiB, 3 passes, 1 lane).
pub fn derive_key(password: &[u8], salt: &[u8]) -> (r: Result<Vec<u8>, VaultError>)
    ensures
        r is Ok <==> password.len() <= 0xFFFF_FFFF && 8 <= salt.len() <= 0xFFFF_FFFF,
        r matches Ok(k) ==> k@ == kdf_key(password@, salt@) && k@.len() == KEY_LEN,
        r matches Err(e) ==> e == VaultError::KeyDerivation,
{
    match argon2id_hash(MEMORY_KIB, ITERATIONS, PARALLELISM, KEY_LEN, password, salt) {
        Ok(k) => Ok(k),
        Err(_) => Err(VaultError::KeyDerivation),
    }
}

/// What `seal_with` returns.
pub open spec fn seal_with_spec(
    plaintext: Seq<u8>,
    password: Seq<u8>,
    salt: Seq<u8>,
    nonce: Seq<u8>,
) -> Result<EnvelopeV, VaultError> {
    if plaintext.len() > MAX_PLAINTEXT_BYTES || password.len() == 0 {
        Err(VaultError::InputRejected)
    } else if password.len() > 0xFFFF_FFFF {
        Err(VaultError::KeyDerivation)
    } else {
        Ok(sealed_envelope(plaintext, password, salt, nonce))
    }
}

pub open spec fn envelope_result_view(r: Result<Envelope, VaultError>) -> Result<EnvelopeV, VaultError> {
    match r {
        Ok(e) => Ok(e@),
        Err(x) => Err(x),
    }
}

/// Encrypts a configuration under a passphrase with the given salt and
/// nonce (16 and 12 bytes).
pub fn seal_with(plaintext: &[u8], password: &[u8], salt: &[u8], nonce: &[u8]) -> (r: Result<
    Envelope,
    VaultError,
>)
    requires
        salt.len() == SALT_LEN,
        nonce.len() == NONCE_LEN,
    ensures
        envelope_result_view(r) == seal_with_spec(plaintext@, password@, salt@, nonce@),
        r is Ok ==> sealed_ciphertext(plaintext@, password@, salt@, nonce@).len() == plaintext.len()
            + TAG_LEN,
        r matches Ok(e) ==> e.salt@.len() == 24 && e.nonce@.len() == 16 && e.ciphertext@.len() == 4
            * ((plaintext.len() + TAG_LEN + 2) / 3),
{
    if plaintext.len() > MAX_PLAINTEXT_BYTES || password.len() == 0 {
        return Err(VaultError::InputRejected);
    }
    let key = match derive_key(password, salt) {
        Ok(k) => k,
        Err(e) => {
            return Err(e);
        },
    };
    let mut key = key;
    let ad = aad();
    let sealed = aes256gcm_encrypt(key.as_slice(), nonce, plaintext, ad.as_slice());
    wipe(&mut key);
    let ciphertext = match sealed {
        Ok(c) => c,
        Err(_) => {
            return Err(VaultError::Encryption);
        },
    };
    Ok(
        Envelope {
            format: FORMAT.to_owned(),
            kdf: KDF.to_owned(),
            memory_kib: MEMORY_KIB,
            iterations: ITERATIONS,
            parallelism: PARALLELISM,
            salt: base64_encode(salt),
            nonce: base64_encode(nonce),
            ciphertext: base64_encode(ciphertext.as_slice()),
        },
    )
}

/// Encrypts a configuration under a passphrase with a fresh random salt and
/// nonce. Two calls on the same input give different envelopes (the salt
/// and nonce are drawn anew), each of which `open` turns back into the
/// plaintext.
pub fn seal(plaintext: &[u8], password: &[u8]) -> (r: Result<Envelope, VaultError>)
    ensures
        plaintext.len() > MAX_PLAINTEXT_BYTES || password.len() == 0 ==> r == Err::<
            Envelope,
            VaultError,
        >(VaultError::InputRejected),
        plaintext.len() <= MAX_PLAINTEXT_BYTES && password.len() > 0 ==> (r is Err ==> (r
            == Err::<Envelope, VaultError>(VaultError::Randomness) || (password.len() > 0xFFFF_FFFF
            && r == Err::<Envelope, VaultError>(VaultError::KeyDerivation)))),
        r matches Ok(e) ==> exists|salt: Seq<u8>, nonce: Seq<u8>|
            salt.len() == SALT_LEN && nonce.len() == NONCE_LEN && #[trigger] sealed_envelope(
                plaintext@,
                password@,
                salt,
                nonce,
            ) == e@ && sealed_ciphertext(plaintext@, password@, salt, nonce).len()
                == plaintext.len() + TAG_LEN,
        r matches Ok(_) ==> password.len() <= 0xFFFF_FFFF,
        r matches Ok(e) ==> e.salt@.len() == 24 && e.nonce@.len() == 16 && e.ciphertext@.len() == 4
            * ((plaintext.len() + TAG_LEN + 2) / 3),
{
    if plaintext.len() > MAX_PLAINTEXT_BYTES || password.len() == 0 {
        return Err(VaultError::InputRejected);
    }
    let salt = match random_bytes(SALT_LEN) {
        Ok(s) => s,
        Err(_) => {
            return Err(VaultError::Randomness);
        },
    };
    let nonce = match random_bytes(NONCE_LEN) {
        Ok(n) => n,
        Err(_) => {
            return Err(VaultError::Randomness);
        },
    };
    let r = seal_with(plaintext, password, salt.as_slice(), nonce.as_slice());
    proof {
        if r is Ok {
            assert(sealed_envelope(plaintext@, password@, salt@, nonce@) == r->Ok_0@);
        }
    }
    r
}


/// The fixed format and key derivation parameters. Fixed parameters keep a
/// modified public bundle from asking for unbounded memory or work, or from
/// silently weakening the key derivation.
pub open spec fn envelope_params_ok(e: EnvelopeV) -> bool {
    &&& e.format == FORMAT@
    &&& e.kdf == KDF@
    &&& e.memory_kib == MEMORY_KIB
    &&& e.iterations == ITERATIONS
    &&& e.parallelism == PARALLELISM
}

/// The checks made before decryption, in order, and what they decode: the
/// salt, the nonce and the ciphertext.
pub open spec fn open_checks(e: EnvelopeV, password: Seq<u8>) -> Result<
    (Seq<u8>, Seq<u8>, Seq<u8>),
    VaultError,
> {
    if password.len() == 0 {
        Err(VaultError::BundleRejected)
    } else if !envelope_params_ok(e) {
        Err(VaultError::Unsupported)
    } else {
        match b64_decode(e.salt) {
            None => Err(VaultError::InvalidSalt),
            Some(salt) => match b64_decode(e.nonce) {
                None => Err(VaultError::InvalidNonce),
                Some(nonce) => match b64_decode(e.ciphertext) {
                    None => Err(VaultError::InvalidCiphertext),
                    Some(ct) => if salt.len() != SALT_LEN || nonce.len() != NONCE_LEN || ct.len()
                        < TAG_LEN {
                        Err(VaultError::InvalidLengths)
                    } else if password.len() > 0xFFFF_FFFF {
                        Err(VaultError::KeyDerivation)
                    } else {
                        Ok((salt, nonce, ct))
                    },
                },
            },
        }
    }
}

/// Decrypts an envelope with the passphrase. Its plaintext is what the
/// ciphertext encrypts under the derived key; a wrong passphrase or a
/// changed ciphertext is refused. An envelope that `seal` made under the
/// same passphrase opens to the sealed plaintext.
pub fn open_envelope(envelope: &Envelope, password: &[u8]) -> (r: Result<Vec<u8>, VaultError>)
    ensures
        match open_checks(envelope@, password@) {
            Err(x) => r == Err::<Vec<u8>, VaultError>(x),
            Ok(t) => {
                &&& (r is Ok || r == Err::<Vec<u8>, VaultError>(VaultError::Decryption))
                &&& r matches Ok(p) ==> (p@.len() <= gcm_max() ==> t.2 == aes256gcm_seal(
                    kdf_key(password@, t.0),
                    t.1,
                    p@,
                    aad_spec(),
                ))
                &&& forall|p: Seq<u8>|
                    p.len() <= gcm_max() && t.2 == #[trigger] aes256gcm_seal(
                        kdf_key(password@, t.0),
                        t.1,
                        p,
                        aad_spec(),
                    ) ==> (r is Ok && r->Ok_0@ == p)
            },
        },
        forall|p: Seq<u8>, salt: Seq<u8>, nonce: Seq<u8>|
            salt.len() == SALT_LEN && nonce.len() == NONCE_LEN && p.len() <= MAX_PLAINTEXT_BYTES
                && 0 < password.len() <= 0xFFFF_FFFF && sealed_ciphertext(
                p,
                password@,
                salt,
                nonce,
            ).len() == p.len() + TAG_LEN && envelope@ == #[trigger] sealed_envelope(
                p,
                password@,
                salt,
                nonce,
            ) ==> (r is Ok && r->Ok_0@ == p),
{
    proof {
        reveal_strlit("pi-omp-setup/config/v1");
    }
    if password.len() == 0 {
        return Err(VaultError::BundleRejected);
    }
    if !(text_eq(envelope.format.as_str(), FORMAT) && text_eq(envelope.kdf.as_str(), KDF)
        && envelope.memory_kib == MEMORY_KIB && envelope.iterations == ITERATIONS
        && envelope.parallelism == PARALLELISM) {
        return Err(VaultError::Unsupported);
    }
    let salt = match base64_decode(envelope.salt.as_str()) {
        Ok(s) => s,
        Err(_) => {
            return Err(VaultError::InvalidSalt);
        },
    };
    let nonce = match base64_decode(envelope.nonce.as_str()) {
        Ok(n) => n,
        Err(_) => {
            return Err(VaultError::InvalidNonce);
        },
    };
    let ciphertext = match base64_decode(envelope.ciphertext.as_str()) {
        Ok(c) => c,
        Err(_) => {
            return Err(VaultError::InvalidCiphertext);
        },
    };
    if salt.len() != SALT_LEN || nonce.len() != NONCE_LEN || ciphertext.len() < TAG_LEN {
        return Err(VaultError::InvalidLengths);
    }
    let key = match derive_key(password, salt.as_slice()) {
        Ok(k) => k,
        Err(e) => {
            return Err(e);
        },
    };
    let mut key = key;
    let ad = aad();
    let opened = aes256gcm_decrypt(key.as_slice(), nonce.as_slice(), ciphertext.as_slice(), ad.as_slice());
    wipe(&mut key);
    match opened {
        Ok(p) => Ok(p),
        Err(_) => Err(VaultError::Decryption),
    }
}


// ---------------------------------------------------------------------------
// Reading an envelope from its JSON document
/// The envelope that a JSON document describes, as a derived
/// `Deserialize` with unknown fields denied reads it: an object with exactly
/// the eight fields, or an array of the eight values in field order.
pub open spec fn envelope_from_json(v: JsonV) -> Option<EnvelopeV> {
    let fields = match v {
        JsonV::Object(e) => if e.len() == 8 {
            Some(
                (
                    v.get("format"@),
                    v.get("kdf"@),
                    v.get("memory_kib"@),
                    v.get("iterations"@),
                    v.get("parallelism"@),
                    v.get("salt"@),
                    v.get("nonce"@),
                    v.get("ciphertext"@),
                ),
            )
        } else {
            None
        },
        JsonV::Array(a) => if a.len() == 8 {
            Some((Some(a[0]), Some(a[1]), Some(a[2]), Some(a[3]), Some(a[4]), Some(a[5]), Some(a[6]), Some(a[7])))
        } else {
            None
        },
        _ => None,
    };
    match fields {
        Some((f, k, m, i, p, s, n, c)) => if str_of(f) is Some && str_of(k) is Some && u32_of(m) is Some
            && u32_of(i) is Some && u32_of(p) is Some && str_of(s) is Some && str_of(n) is Some
            && str_of(c) is Some {
            Some(
                EnvelopeV {
                    format: str_of(f)->0,
                    kdf: str_of(k)->0,
                    memory_kib: u32_of(m)->0,
                    iterations: u32_of(i)->0,
                    parallelism: u32_of(p)->0,
                    salt: str_of(s)->0,
                    nonce: str_of(n)->0,
                    ciphertext: str_of(c)->0,
                },
            )
        } else {
            None
        },
        None => None,
    }
}

fn text_at(v: &Json, i: usize) -> (r: Option<String>)
    ensures
        v@ is Array && i < v@->Array_0.len() ==> (r matches Some(s) ==> str_of(Some(v@->Array_0[i as int]))
            == Some(s@)) && (r is None ==> str_of(Some(v@->Array_0[i as int])) is None),
{
    match v.element(i) {
        Some(x) => match x.as_text() {
            Some(s) => Some(s.clone()),
            None => None,
        },
        None => None,
    }
}

fn u32_at(v: &Json, i: usize) -> (r: Option<u32>)
    ensures
        v@ is Array && i < v@->Array_0.len() ==> r == u32_of(Some(v@->Array_0[i as int])),
{
    match v.element(i) {
        Some(x) => match x {
            Json::Number(t) => parse_u32(t.as_str()),
            _ => None,
        },
        None => None,
    }
}

impl Envelope {
    /// Reads an envelope from its JSON document (see `envelope_from_json`).
    pub fn from_json(v: &Json) -> (r: Result<Envelope, VaultError>)
        requires
            v@.wf(),
        ensures
            r matches Ok(e) ==> envelope_from_json(v@) == Some(e@),
            r matches Err(x) ==> envelope_from_json(v@) is None && x == VaultError::InvalidFormat,
    {
        let n = v.size();
        let parts = if v.is_object() && n == 8 {
            (
                v.text_member("format"),
                v.text_member("kdf"),
                v.u32_member("memory_kib"),
                v.u32_member("iterations"),
                v.u32_member("parallelism"),
                v.text_member("salt"),
                v.text_member("nonce"),
                v.text_member("ciphertext"),
            )
        } else if v.is_array() && n == 8 {
            (
                text_at(v, 0),
                text_at(v, 1),
                u32_at(v, 2),
                u32_at(v, 3),
                u32_at(v, 4),
                text_at(v, 5),
                text_at(v, 6),
                text_at(v, 7),
            )
        } else {
            return Err(VaultError::InvalidFormat);
        };
        match parts {
            (Some(format), Some(kdf), Some(memory_kib), Some(iterations), Some(parallelism), Some(salt), Some(nonce), Some(ciphertext)) => Ok(Envelope {
                format,
                kdf,
                memory_kib,
                iterations,
                parallelism,
                salt,
                nonce,
                ciphertext,
            }),
            _ => Err(VaultError::InvalidFormat),
        }
    }
}

/// The size and passphrase checks made before a bundle is read.
pub fn check_bundle(bundle_len: usize, password: &[u8]) -> (r: Result<(), VaultError>)
    ensures
        r is Ok <==> bundle_len <= MAX_BUNDLE_BYTES && password.len() > 0,
        r matches Err(x) ==> x == VaultError::BundleRejected,
{
    if bundle_len > MAX_BUNDLE_BYTES || password.len() == 0 {
        Err(VaultError::BundleRejected)
    } else {
        Ok(())
    }
}

/// What opening an envelope under `password` may return: the error of the
/// first check that fails; after the checks, either a refusal of the
/// ciphertext or a plaintext that it encrypts under the derived key, which
/// is the plaintext whenever one encrypts to it.
pub open spec fn opened(e: EnvelopeV, password: Seq<u8>, r: Result<Vec<u8>, VaultError>) -> bool {
    match open_checks(e, password) {
        Err(x) => r == Err::<Vec<u8>, VaultError>(x),
        Ok(t) => {
            &&& (r is Ok || r == Err::<Vec<u8>, VaultError>(VaultError::Decryption))
            &&& r matches Ok(p) ==> (p@.len() <= gcm_max() ==> t.2 == aes256gcm_seal(
                kdf_key(password, t.0),
                t.1,
                p@,
                aad_spec(),
            ))
            &&& forall|p: Seq<u8>|
                p.len() <= gcm_max() && t.2 == #[trigger] aes256gcm_seal(
                    kdf_key(password, t.0),
                    t.1,
                    p,
                    aad_spec(),
                ) ==> (r is Ok && r->Ok_0@ == p)
        },
    }
}

/// Opens a bundle of `bundle_len` bytes whose JSON document is `bundle`:
/// size and passphrase checks, then the envelope, then `open_envelope`.
pub fn open(bundle_len: usize, bundle: &Json, password: &[u8]) -> (r: Result<Vec<u8>, VaultError>)
    requires
        bundle@.wf(),
    ensures
        bundle_len > MAX_BUNDLE_BYTES || password.len() == 0 ==> r == Err::<Vec<u8>, VaultError>(
            VaultError::BundleRejected,
        ),
        bundle_len <= MAX_BUNDLE_BYTES && password.len() > 0 && envelope_from_json(bundle@) is None
            ==> r == Err::<Vec<u8>, VaultError>(VaultError::InvalidFormat),
        bundle_len <= MAX_BUNDLE_BYTES && password.len() > 0 && envelope_from_json(bundle@) is Some
            ==> opened(envelope_from_json(bundle@)->0, password@, r),
{
    match check_bundle(bundle_len, password) {
        Ok(()) => {},
        Err(e) => {
            return Err(e);
        },
    }
    let envelope = match Envelope::from_json(bundle) {
        Ok(e) => e,
        Err(e) => {
            return Err(e);
        },
    };
    open_envelope(&envelope, password)
}

/// Opens a bundle from its bytes: size and passphrase checks, then the
/// JSON document (`serde_json`), then `open`.
pub fn open_bundle(bundle: &[u8], password: &[u8]) -> (r: Result<Vec<u8>, VaultError>)
    ensures
        bundle.len() > MAX_BUNDLE_BYTES || password.len() == 0 ==> r == Err::<Vec<u8>, VaultError>(
            VaultError::BundleRejected,
        ),
        bundle.len() <= MAX_BUNDLE_BYTES && password.len() > 0 ==> match parsed_json(bundle@) {
            None => r == Err::<Vec<u8>, VaultError>(VaultError::InvalidFormat),
            Some(v) => match envelope_from_json(v) {
                None => r == Err::<Vec<u8>, VaultError>(VaultError::InvalidFormat),
                Some(e) => opened(e, password@, r),
            },
        },
{
    match check_bundle(bundle.len(), password) {
        Ok(()) => {},
        Err(e) => {
            return Err(e);
        },
    }
    match parse_json_bytes(bundle) {
        Some(v) => open(bundle.len(), &v, password),
        None => Err(VaultError::InvalidFormat),
    }
}

} // verus!
