use nd_secure::error::VaultError;
use nd_secure::generator::{generate_password, generate_password_with_options, PasswordGeneratorOptions};
use nd_secure::totp::{totp_at, validate_totp_secret};

const SYMBOLS: &[u8] = b"!@#$%^&*()-_=+[]{}:,.?";

#[test]
fn generator_respects_requested_length() {
    let generated = generate_password(24, true).unwrap();
    assert_eq!(generated.password.len(), 24);
}

#[test]
fn advanced_generator_enforces_minimum_counts() {
    let generated = generate_password_with_options(PasswordGeneratorOptions {
        length: 32,
        lowercase: true,
        uppercase: true,
        numbers: true,
        symbols: true,
        exclude_ambiguous: true,
        min_numbers: 5,
        min_symbols: 4,
    })
    .unwrap();
    assert!(generated.password.bytes().filter(u8::is_ascii_digit).count() >= 5);
    assert!(generated.password.bytes().filter(|byte| SYMBOLS.contains(byte)).count() >= 4);
}

#[test]
fn generator_rejects_impossible_constraints() {
    assert!(generate_password_with_options(PasswordGeneratorOptions {
        length: 12,
        lowercase: true,
        uppercase: true,
        numbers: false,
        symbols: false,
        exclude_ambiguous: true,
        min_numbers: 2,
        min_symbols: 0,
    })
    .is_err());
}

#[test]
fn generator_rejects_lengths_outside_bounds() {
    assert!(matches!(generate_password(11, true), Err(VaultError::InvalidInput(_))));
    assert!(matches!(generate_password(129, false), Err(VaultError::InvalidInput(_))));
    assert_eq!(generate_password(128, false).unwrap().password.len(), 128);
}

#[test]
fn generator_without_any_class_is_refused() {
    assert!(generate_password_with_options(PasswordGeneratorOptions {
        length: 16,
        lowercase: false,
        uppercase: false,
        numbers: false,
        symbols: false,
        exclude_ambiguous: false,
        min_numbers: 0,
        min_symbols: 0,
    })
    .is_err());
}

#[test]
fn excluded_ambiguous_characters_never_appear() {
    for _ in 0..20 {
        let generated = generate_password_with_options(PasswordGeneratorOptions {
            length: 64,
            lowercase: true,
            uppercase: true,
            numbers: true,
            symbols: false,
            exclude_ambiguous: true,
            min_numbers: 0,
            min_symbols: 0,
        })
        .unwrap();
        assert!(!generated.password.contains(['l', 'I', 'O', '0', '1']));
        assert!(generated.password.bytes().all(|b| b.is_ascii_alphanumeric()));
    }
}

#[test]
fn rejects_short_secret() {
    assert!(validate_totp_secret("JBSWY3DP").is_err());
}

#[test]
fn accepts_spaced_lowercase_secret() {
    assert!(validate_totp_secret("jbsw y3dp ehpk 3pxp").is_ok());
    assert!(validate_totp_secret("not base32 !!").is_err());
}

#[test]
fn totp_matches_the_rfc_sha1_vector() {
    // RFC 6238 test secret "12345678901234567890" at T = 59 s gives 94287082; six digits keep 287082.
    let code = totp_at(b"12345678901234567890", 59);
    assert_eq!(code.code, "287082");
    assert_eq!(code.remaining_seconds, 1);
}
