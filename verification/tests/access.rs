use pi_omp_setup::access::{
    acl_grant, check_passphrase, confirm_passphrase, generate_passphrase, passphrase_from_file,
    passphrase_from_random, user_sid, PassphraseError,
};

#[test]
fn passphrase_files_lose_their_line_ends_only() {
    assert_eq!(passphrase_from_file("secret words\r\n").unwrap(), "secret words");
    assert_eq!(passphrase_from_file("  spaced  \n\n").unwrap(), "  spaced  ");
    assert_eq!(passphrase_from_file("a\nb\n").unwrap(), "a\nb");
    assert_eq!(passphrase_from_file("\r\n"), Err(PassphraseError::Empty));
    assert_eq!(check_passphrase(""), Err(PassphraseError::Empty));
    assert_eq!(check_passphrase("x"), Ok(()));
    assert_eq!(PassphraseError::Empty.message(), "Passphrase cannot be empty");
}

#[test]
fn reads_the_user_sid_from_whoami() {
    assert_eq!(
        user_sid("\"host\\user\",\"S-1-5-21-100-200-300-1001\"\r\n").unwrap(),
        "S-1-5-21-100-200-300-1001"
    );
    assert_eq!(user_sid("S-1-5-18").unwrap(), "S-1-5-18");
    assert!(user_sid("\"host\\user\",\"S-1-5-21-abc\"").is_none());
    assert!(user_sid("\"host\\user\",\"X-1-5\"").is_none());
    assert!(user_sid("").is_none());
    assert_eq!(acl_grant("S-1-5-18", true), "*S-1-5-18:(OI)(CI)F");
    assert_eq!(acl_grant("S-1-5-18", false), "*S-1-5-18:F");
}

#[test]
fn confirmation_must_repeat_the_passphrase() {
    assert_eq!(confirm_passphrase("same words", "same words"), Ok(()));
    assert_eq!(
        confirm_passphrase("same words", "same word"),
        Err(PassphraseError::Mismatch)
    );
    assert_eq!(PassphraseError::Mismatch.message(), "Passphrases do not match");
}

#[test]
fn generated_passphrases_are_43_url_safe_characters() {
    let a = generate_passphrase().unwrap();
    let b = generate_passphrase().unwrap();
    assert_eq!(a.len(), 43);
    assert!(a.chars().all(|c| c.is_ascii_alphanumeric() || c == '-' || c == '_'));
    assert_ne!(a, b);
    assert_eq!(passphrase_from_random(&[0u8; 32]), "A".repeat(43));
    assert_eq!(passphrase_from_random(&[0xffu8; 32]), format!("{}8", "_".repeat(42)));
}

#[test]
fn character_classes_are_the_unicode_lists() {
    // White_Space and Cc, as the library's contracts list them.
    let white = |n: u32| {
        (0x09..=0x0D).contains(&n)
            || n == 0x20
            || n == 0x85
            || n == 0xA0
            || n == 0x1680
            || (0x2000..=0x200A).contains(&n)
            || n == 0x2028
            || n == 0x2029
            || n == 0x202F
            || n == 0x205F
            || n == 0x3000
    };
    let control = |n: u32| n <= 0x1F || (0x7F..=0x9F).contains(&n);
    for n in 0..=0x10FFFFu32 {
        if let Some(c) = char::from_u32(n) {
            assert_eq!(c.is_whitespace(), white(n), "U+{n:04X}");
            assert_eq!(c.is_control(), control(n), "U+{n:04X}");
        }
    }
}
