use oxidenms::crypto::{parse_record, sealed_record_text};
use oxidenms::crypto::opened_to_text;
use oxidenms::crypto::{decrypt_credential, encrypt_credential, encrypt_with};
use oxidenms::db::{check_master_password, new_vault_record, verify_vault_record};
use oxidenms::hex::{decode, encode};

#[test]
fn encrypt_then_decrypt_gives_plaintext() {
    let rec = encrypt_credential("s3cret-Şifre", "master").unwrap();
    assert_eq!(decrypt_credential(&rec, "master").unwrap(), "s3cret-Şifre");
}

#[test]
fn record_has_three_hex_parts() {
    let rec = encrypt_credential("abc", "pw").unwrap();
    let parts: Vec<&str> = rec.split(':').collect();
    assert_eq!(parts.len(), 3);
    assert_eq!(parts[0].len(), 32);
    assert_eq!(parts[1].len(), 24);
    // 3 bytes of ciphertext and a 16-byte tag.
    assert_eq!(parts[2].len(), 2 * (3 + 16));
}

#[test]
fn fixed_salt_and_nonce_are_deterministic() {
    let salt = [7u8; 16];
    let nonce = [9u8; 12];
    let a = encrypt_with("text", "pw", &salt, &nonce).unwrap();
    let b = encrypt_with("text", "pw", &salt, &nonce).unwrap();
    assert_eq!(a, b);
    assert!(a.starts_with("07070707070707070707070707070707:090909090909090909090909:"));
    assert_eq!(decrypt_credential(&a, "pw").unwrap(), "text");
}

#[test]
fn wrong_password_is_refused() {
    let rec = encrypt_credential("abc", "right").unwrap();
    assert_eq!(
        decrypt_credential(&rec, "wrong").unwrap_err(),
        "Decryption failed (Wrong password or corrupted data)"
    );
}

#[test]
fn malformed_records_are_refused() {
    assert_eq!(decrypt_credential("abc", "pw").unwrap_err(), "Invalid encrypted format");
    assert_eq!(decrypt_credential("zz:00:00", "pw").unwrap_err(), "Invalid salt hex");
    assert_eq!(decrypt_credential("00:0:00", "pw").unwrap_err(), "Invalid nonce hex");
    assert_eq!(decrypt_credential("00:00:g0", "pw").unwrap_err(), "Invalid ciphertext hex");
    assert_eq!(
        decrypt_credential("00:00:00", "pw").unwrap_err(),
        "Invalid salt or nonce length"
    );
}

#[test]
fn hex_encoding() {
    assert_eq!(encode(&[0x00, 0xab, 0x10, 0xff]), "00ab10ff");
    assert_eq!(decode("00AB10ff"), Some(vec![0x00, 0xab, 0x10, 0xff]));
    assert_eq!(decode("abc"), None);
    assert_eq!(decode("xy"), None);
    assert_eq!(decode(""), Some(vec![]));
}

#[test]
fn vault_accepts_its_master_password() {
    let rec = new_vault_record("master").unwrap();
    assert!(verify_vault_record(&rec, "master").is_ok());
    assert!(verify_vault_record(&rec, "other").is_err());
}

#[test]
fn vault_refuses_a_record_of_another_text() {
    let rec = encrypt_credential("not the check", "master").unwrap();
    assert_eq!(
        verify_vault_record(&rec, "master").unwrap_err(),
        "Master password dogrulanamadi."
    );
}

#[test]
fn blank_master_password_is_refused() {
    assert_eq!(check_master_password("  \t").unwrap_err(), "Master password bos olamaz.");
    assert!(check_master_password(" pw ").is_ok());
}

#[test]
fn record_parts_are_read_back() {
    let text = sealed_record_text(&[1u8; 16], &[2u8; 12], &[0xde, 0xad]);
    assert_eq!(
        text,
        "01010101010101010101010101010101:020202020202020202020202:dead"
    );
    let (salt, nonce, ct) = parse_record(&text).unwrap();
    assert_eq!(salt, vec![1u8; 16]);
    assert_eq!(nonce, [2u8; 12]);
    assert_eq!(ct, vec![0xde, 0xad]);
}

#[test]
fn opened_bytes_must_be_utf8() {
    assert_eq!(opened_to_text(Some("şifre".as_bytes().to_vec())).unwrap(), "şifre");
    assert_eq!(
        opened_to_text(Some(vec![0xff, 0xfe])).unwrap_err(),
        "Invalid UTF-8 in decrypted data"
    );
    assert_eq!(
        opened_to_text(None).unwrap_err(),
        "Decryption failed (Wrong password or corrupted data)"
    );
}

#[test]
fn ciphertext_differs_from_plaintext() {
    let salt = [0u8; 16];
    let nonce = [0u8; 12];
    let rec = encrypt_with("aaaa", "pw", &salt, &nonce).unwrap();
    let ct = rec.rsplit(':').next().unwrap();
    assert_ne!(&ct[..8], "61616161");
    let other = encrypt_with("aaaa", "pw2", &salt, &nonce).unwrap();
    assert_ne!(rec, other);
}

#[test]
fn new_vault_record_always_succeeds() {
    let rec = new_vault_record("").unwrap();
    assert_eq!(decrypt_credential(&rec, "").unwrap(), "oxidenms-vault-check-v1");
}
