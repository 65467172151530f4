use pebblecrypt::cipher::{prepare_encryptor, unlock_failure, unlock_identity, MAX_WORK_FACTOR, WORK_FACTOR};
use std::io::{Read, Write};

fn encrypt(password: &str, work_factor: u8, plaintext: &[u8]) -> Vec<u8> {
    let encryptor = match prepare_encryptor(password, work_factor) {
        Ok(e) => e,
        Err(m) => panic!("set-up failed: {m}"),
    };
    let mut out = Vec::new();
    let mut writer = encryptor.wrap_output(&mut out).unwrap();
    writer.write_all(plaintext).unwrap();
    writer.finish().unwrap();
    out
}

fn decrypt_with(identity: &age::scrypt::Identity, ciphertext: &[u8]) -> Result<Vec<u8>, age::DecryptError> {
    let decryptor = age::Decryptor::new(ciphertext)?;
    let mut reader = decryptor.decrypt(std::iter::once(identity as &dyn age::Identity))?;
    let mut plain = Vec::new();
    reader.read_to_end(&mut plain).unwrap();
    Ok(plain)
}

fn contains(haystack: &[u8], needle: &[u8]) -> bool {
    haystack.windows(needle.len()).any(|w| w == needle)
}

#[test]
fn requested_work_factor_is_recorded_and_standard_age_reads_it() {
    assert_eq!(WORK_FACTOR, 18);
    let password = "a long test-only passphrase";
    let sealed = encrypt(password, 12, b"production parameters");
    assert!(contains(&sealed, b" 12\n"));
    let standard = age::scrypt::Identity::new(age::secrecy::SecretString::from(password.to_owned()));
    assert_eq!(decrypt_with(&standard, &sealed).unwrap(), b"production parameters");
}

#[test]
fn password_whitespace_and_unicode_are_not_normalized() {
    let text = "  å 日本語 🔐 e\u{301}  ";
    let sealed = encrypt(text, 10, b"precise password");
    assert!(contains(&sealed, b" 10\n"));
    for other in [text.trim(), "  å 日本語 🔐 é  "] {
        let e = decrypt_with(&unlock_identity(other, MAX_WORK_FACTOR), &sealed).unwrap_err();
        assert_eq!(unlock_failure(&e), "The password is incorrect, or the encrypted file is damaged.");
    }
    assert_eq!(decrypt_with(&unlock_identity(text, MAX_WORK_FACTOR), &sealed).unwrap(), b"precise password");
}

#[test]
fn work_factor_above_the_cap_is_refused_by_name() {
    let sealed = encrypt("correct horse battery", 4, b"capped");
    let e = decrypt_with(&unlock_identity("correct horse battery", 3), &sealed).unwrap_err();
    assert_eq!(
        unlock_failure(&e),
        "This file requests more password-derivation memory than PebbleCrypt allows (1 GiB)."
    );
    assert_eq!(decrypt_with(&unlock_identity("correct horse battery", 4), &sealed).unwrap(), b"capped");
}
