//! Credential vault: device passwords sealed under a master password.
//!
//! A credential is sealed with AES-256-GCM under a key derived from the
//! master password and a fresh random salt by PBKDF2-HMAC-SHA256; the record
//! is the salt, the nonce and the ciphertext in hexadecimal, joined by `:`.

use vstd::prelude::*;
use vstd::utf8::{decode_utf8, encode_utf8, valid_utf8};

use aes_gcm::aead::{Aead, AeadCore, KeyInit, OsRng};
use aes_gcm::{Aes256Gcm, Key, Nonce};
use rand::RngCore;
use sha2::Sha256;

use crate::hex::{decode_chars, encode, hex_decode, hex_encode, lemma_decode_encode, lemma_encode_has_no_colon};
use crate::text::{chars_of, lemma_split_three, push_char, push_str, split_chars, split_on};

verus! {

/// Bytes of random salt per record.
pub const SALT_LEN: usize = 16;

/// Bytes of AES-GCM nonce per record.
pub const NONCE_LEN: usize = 12;

/// PBKDF2 rounds of the key derivation.
pub const PBKDF2_ITERATIONS: u32 = 100_000;

/// Bytes of the derived key.
pub const KEY_LEN: usize = 32;

/// The longest plaintext AES-GCM seals, in bytes (2^36).
pub const MAX_PLAINTEXT_LEN: u64 = 68_719_476_736;

/// Makes `aes_gcm::Error` (the `aead` error) known to the verifier, as an
/// opaque type.
#[verifier::external_type_specification]
#[verifier::external_body]
pub struct ExAeadError(aes_gcm::Error);

/// The key PBKDF2-HMAC-SHA256 derives from a password and a salt in a
/// number of rounds.
pub uninterp spec fn pbkdf2_sha256(password: Seq<u8>, salt: Seq<u8>, rounds: u32) -> Seq<u8>;

/// The ciphertext (with its tag) AES-256-GCM makes of a plaintext under a
/// key and a nonce, with no associated data.
pub uninterp spec fn aes256gcm_seal(key: Seq<u8>, nonce: Seq<u8>, plaintext: Seq<u8>) -> Seq<u8>;

/// The plaintext AES-256-GCM recovers from a ciphertext under a key and a
/// nonce, or `None` when the ciphertext does not authenticate.
pub uninterp spec fn aes256gcm_open(key: Seq<u8>, nonce: Seq<u8>, ciphertext: Seq<u8>) -> Option<
    Seq<u8>,
>;

/// Derives a 32-byte key with `pbkdf2::pbkdf2_hmac::<Sha256>`. Claims that
/// the key is the PBKDF2-HMAC-SHA256 value of the arguments.
#[verifier::external_body]
fn pbkdf2_hmac_sha256(password: &[u8], salt: &[u8], rounds: u32) -> (r: [u8; 32])
    ensures
        r@ == pbkdf2_sha256(password@, salt@, rounds),
{
    let mut key = [0u8;32];
    pbkdf2::pbkdf2_hmac::<Sha256>(password, salt, rounds, &mut key);
    key
}

/// Sixteen bytes from the operating system's random source
/// (`OsRng.fill_bytes`). Nothing is claimed of them.
#[verifier::external_body]
fn random_salt() -> (r: [u8; 16]) {
    let mut salt = [0u8;16];
    OsRng.fill_bytes(&mut salt);
    salt
}

/// A random 12-byte nonce (`Aes256Gcm::generate_nonce` with `OsRng`).
/// Nothing is claimed of it.
#[verifier::external_body]
fn random_nonce() -> (r: [u8; 12]) {
    Aes256Gcm::generate_nonce(&mut OsRng).into()
}

/// Seals a plaintext with `Aes256Gcm::encrypt`. Claims what the `aes-gcm`
/// source shows: it fails exactly on a plaintext longer than 2^36 bytes,
/// and otherwise gives the sealed ciphertext (as long as the plaintext,
/// followed by the 16-byte tag), which opens under the same key and nonce
/// to the plaintext.
#[verifier::external_body]
fn aes256gcm_encrypt(key: &[u8; 32], nonce: &[u8; 12], plaintext: &[u8]) -> (r: Result<
    Vec<u8>,
    aes_gcm::Error,
>)
    ensures
        r is Ok <==> plaintext@.len() <= MAX_PLAINTEXT_LEN,
        r is Ok ==> r->Ok_0@ == aes256gcm_seal(key@, nonce@, plaintext@),
        r is Ok ==> r->Ok_0@.len() == plaintext@.len() + 16,
        r is Ok ==> aes256gcm_open(key@, nonce@, r->Ok_0@) == Some(plaintext@),
{
    let cipher = Aes256Gcm::new(Key::<Aes256Gcm>::from_slice(key));
    cipher.encrypt(Nonce::from_slice(nonce), plaintext)
}

/// Opens a ciphertext with `Aes256Gcm::decrypt`. Claims that the outcome is
/// the AES-256-GCM opening of the arguments.
#[verifier::external_body]
fn aes256gcm_decrypt(key: &[u8; 32], nonce: &[u8; 12], ciphertext: &[u8]) -> (r: Result<
    Vec<u8>,
    aes_gcm::Error,
>)
    ensures
        match r {
            Ok(p) => aes256gcm_open(key@, nonce@, ciphertext@) == Some(p@),
            Err(_) => aes256gcm_open(key@, nonce@, ciphertext@) is None,
        },
{
    let cipher = Aes256Gcm::new(Key::<Aes256Gcm>::from_slice(key));
    cipher.decrypt(Nonce::from_slice(nonce), ciphertext)
}

/// The text of an `aead::Error` (its `Display`), which the `aead` source
/// writes as `aead::Error`.
#[verifier::external_body]
fn aead_error_text(e: &aes_gcm::Error) -> (r: String)
    ensures
        r@ == "aead::Error"@,
{
    format!("{}", e)
}

/// `String::from_utf8`, keeping the text or nothing: claims, as its
/// documentation says, that it succeeds exactly on valid UTF-8 and then
/// holds the characters the bytes encode.
#[verifier::external_body]
fn string_from_utf8(bytes: Vec<u8>) -> (r: Option<String>)
    ensures
        r is Some <==> valid_utf8(bytes@),
        r is Some ==> r->0@ == decode_utf8(bytes@),
{
    String::from_utf8(bytes).ok()
}

/// The key derived from a master password and a salt.
pub open spec fn key_for(master: Seq<char>, salt: Seq<u8>) -> Seq<u8> {
    pbkdf2_sha256(encode_utf8(master), salt, PBKDF2_ITERATIONS)
}

/// The text of a record: salt, nonce and ciphertext in hexadecimal, joined
/// by `:`.
pub open spec fn sealed_record(salt: Seq<u8>, nonce: Seq<u8>, ciphertext: Seq<u8>) -> Seq<char> {
    hex_encode(salt) + seq![':'] + hex_encode(nonce) + seq![':'] + hex_encode(ciphertext)
}

/// The length of the record of a plaintext of `n` bytes: 32 hexadecimal
/// digits of salt, 24 of nonce and two per byte of ciphertext (the
/// plaintext and a 16-byte tag), with two separators.
pub open spec fn record_len(n: nat) -> nat {
    (2 * SALT_LEN + 1 + 2 * NONCE_LEN + 1 + 2 * (n + 16)) as nat
}

/// What sealing a plaintext under a master password with a given salt and
/// nonce gives: the record, or the message of the refusal of a plaintext
/// too long for AES-GCM.
pub open spec fn encryption_of(
    plaintext: Seq<char>,
    master: Seq<char>,
    salt: Seq<u8>,
    nonce: Seq<u8>,
) -> Result<Seq<char>, Seq<char>> {
    let bytes = encode_utf8(plaintext);
    if bytes.len() <= MAX_PLAINTEXT_LEN {
        Ok(sealed_record(salt, nonce, aes256gcm_seal(key_for(master, salt), nonce, bytes)))
    } else {
        Err("Encryption failed: "@ + "aead::Error"@)
    }
}

/// The salt, nonce and ciphertext a record holds, or the message of the
/// first check that failed: three `:`-separated parts, each hexadecimal,
/// with a 16-byte salt and a 12-byte nonce.
pub open spec fn record_parts(data: Seq<char>) -> Result<(Seq<u8>, Seq<u8>, Seq<u8>), Seq<char>> {
    let parts = split_on(data, ':');
    if parts.len() != 3 {
        Err("Invalid encrypted format"@)
    } else {
        match hex_decode(parts[0]) {
            None => Err("Invalid salt hex"@),
            Some(salt) => match hex_decode(parts[1]) {
                None => Err("Invalid nonce hex"@),
                Some(nonce) => match hex_decode(parts[2]) {
                    None => Err("Invalid ciphertext hex"@),
                    Some(ct) => if salt.len() != SALT_LEN || nonce.len() != NONCE_LEN {
                        Err("Invalid salt or nonce length"@)
                    } else {
                        Ok((salt, nonce, ct))
                    },
                },
            },
        }
    }
}

/// The text an opening gives: the plaintext when the ciphertext opened and
/// is valid UTF-8, else the message of what went wrong.
pub open spec fn opened_text(opened: Option<Seq<u8>>) -> Result<Seq<char>, Seq<char>> {
    match opened {
        None => Err("Decryption failed (Wrong password or corrupted data)"@),
        Some(p) => if valid_utf8(p) {
            Ok(decode_utf8(p))
        } else {
            Err("Invalid UTF-8 in decrypted data"@)
        },
    }
}

/// What opening a record under a master password gives: the plaintext, or
/// the message of the first check that failed.
pub open spec fn decryption_of(data: Seq<char>, master: Seq<char>) -> Result<Seq<char>, Seq<char>> {
    match record_parts(data) {
        Err(m) => Err(m),
        Ok((salt, nonce, ct)) => opened_text(aes256gcm_open(key_for(master, salt), nonce, ct)),
    }
}

/// The abstract content of a result with text on both sides.
pub open spec fn text_result(r: Result<String, String>) -> Result<Seq<char>, Seq<char>> {
    match r {
        Ok(s) => Ok(s@),
        Err(s) => Err(s@),
    }
}

/// A `String` holding a literal.
fn owned(s: &str) -> (r: String)
    ensures
        r@ == s@,
{
    s.to_owned()
}

/// The 32-byte key for a password and a salt.
fn derive_key(password: &str, salt: &[u8]) -> (r: [u8; 32])
    ensures
        r@ == key_for(password@, salt@),
{
    pbkdf2_hmac_sha256(password.as_bytes(), salt, PBKDF2_ITERATIONS)
}

/// A record whose ciphertext opens, under the key of the master password
/// and the salt, to the UTF-8 bytes of a text opens to that text.
pub proof fn lemma_decrypt_sealed_record(
    plaintext: Seq<char>,
    master: Seq<char>,
    salt: Seq<u8>,
    nonce: Seq<u8>,
    ciphertext: Seq<u8>,
)
    requires
        salt.len() == SALT_LEN,
        nonce.len() == NONCE_LEN,
        aes256gcm_open(key_for(master, salt), nonce, ciphertext) == Some(encode_utf8(plaintext)),
    ensures
        decryption_of(sealed_record(salt, nonce, ciphertext), master) == Ok::<
            Seq<char>,
            Seq<char>,
        >(plaintext),
{
    lemma_encode_has_no_colon(salt);
    lemma_encode_has_no_colon(nonce);
    lemma_encode_has_no_colon(ciphertext);
    lemma_split_three(hex_encode(salt), hex_encode(nonce), hex_encode(ciphertext), ':');
    lemma_decode_encode(salt);
    lemma_decode_encode(nonce);
    lemma_decode_encode(ciphertext);
    vstd::utf8::encode_utf8_valid_utf8(plaintext);
    vstd::utf8::encode_utf8_decode_utf8(plaintext);
}

/// The text of a record for a salt, a nonce and a ciphertext.
pub fn sealed_record_text(salt: &[u8], nonce: &[u8], ciphertext: &[u8]) -> (r: String)
    ensures
        r@ == sealed_record(salt@, nonce@, ciphertext@),
{
    let mut out = encode(salt);
    push_char(&mut out, ':');
    let n = encode(nonce);
    push_str(&mut out, n.as_str());
    push_char(&mut out, ':');
    let c = encode(ciphertext);
    push_str(&mut out, c.as_str());
    proof {
        assert(out@ =~= sealed_record(salt@, nonce@, ciphertext@));
    }
    out
}

/// Seals `plaintext` under `master_pass` with the given salt and nonce.
/// A record it gives opens under the same master password to the
/// plaintext.
pub fn encrypt_with(plaintext: &str, master_pass: &str, salt: &[u8; 16], nonce: &[u8; 12]) -> (r:
    Result<String, String>)
    ensures
        text_result(r) == encryption_of(plaintext@, master_pass@, salt@, nonce@),
        r is Ok ==> decryption_of(r->Ok_0@, master_pass@) == Ok::<Seq<char>, Seq<char>>(
            plaintext@,
        ),
        r is Ok ==> r->Ok_0@.len() == record_len(encode_utf8(plaintext@).len()),
{
    let key = derive_key(master_pass, salt);
    let ciphertext = match aes256gcm_encrypt(&key, nonce, plaintext.as_bytes()) {
        Ok(c) => c,
        Err(e) => {
            let mut m = owned("Encryption failed: ");
            let t = aead_error_text(&e);
            push_str(&mut m, t.as_str());
            return Err(m);
        },
    };
    let out = sealed_record_text(salt, nonce, ciphertext.as_slice());
    proof {
        lemma_decrypt_sealed_record(plaintext@, master_pass@, salt@, nonce@, ciphertext@);
    }
    Ok(out)
}

/// Seals `plaintext` under `master_pass` with a fresh random salt and
/// nonce, giving the record `salt:nonce:ciphertext` in hexadecimal. A
/// record it gives opens under the same master password to the plaintext.
pub fn encrypt_credential(plaintext: &str, master_pass: &str) -> (r: Result<String, String>)
    ensures
        exists|salt: Seq<u8>, nonce: Seq<u8>|
            salt.len() == SALT_LEN && nonce.len() == NONCE_LEN && #[trigger] encryption_of(
                plaintext@,
                master_pass@,
                salt,
                nonce,
            ) == text_result(r),
        r is Ok ==> decryption_of(r->Ok_0@, master_pass@) == Ok::<Seq<char>, Seq<char>>(
            plaintext@,
        ),
        r is Ok ==> r->Ok_0@.len() == record_len(encode_utf8(plaintext@).len()),
{
    let salt = random_salt();
    let nonce = random_nonce();
    encrypt_with(plaintext, master_pass, &salt, &nonce)
}

/// Reads the salt, nonce and ciphertext of a record.
#[verifier::rlimit(40)]
pub fn parse_record(encrypted_data: &str) -> (r: Result<(Vec<u8>, [u8; 12], Vec<u8>), String>)
    ensures
        match r {
            Ok((salt, nonce, ct)) => record_parts(encrypted_data@) == Ok::<
                (Seq<u8>, Seq<u8>, Seq<u8>),
                Seq<char>,
            >((salt@, nonce@, ct@)),
            Err(m) => record_parts(encrypted_data@) == Err::<(Seq<u8>, Seq<u8>, Seq<u8>), Seq<char>>(
                m@,
            ),
        },
{
    let cs = chars_of(encrypted_data);
    let parts = split_chars(cs.as_slice(), ':');
    if parts.len() != 3 {
        return Err(owned("Invalid encrypted format"));
    }
    proof {
        assert(parts@.map_values(|p: Vec<char>| p@)[0] == parts@[0]@);
        assert(parts@.map_values(|p: Vec<char>| p@)[1] == parts@[1]@);
        assert(parts@.map_values(|p: Vec<char>| p@)[2] == parts@[2]@);
    }
    let salt = match decode_chars(parts[0].as_slice()) {
        Some(v) => v,
        None => return Err(owned("Invalid salt hex")),
    };
    let nonce_bytes = match decode_chars(parts[1].as_slice()) {
        Some(v) => v,
        None => return Err(owned("Invalid nonce hex")),
    };
    let ciphertext = match decode_chars(parts[2].as_slice()) {
        Some(v) => v,
        None => return Err(owned("Invalid ciphertext hex")),
    };
    if salt.len() != SALT_LEN || nonce_bytes.len() != NONCE_LEN {
        return Err(owned("Invalid salt or nonce length"));
    }
    let nonce: [u8; 12] = [
        nonce_bytes[0],
        nonce_bytes[1],
        nonce_bytes[2],
        nonce_bytes[3],
        nonce_bytes[4],
        nonce_bytes[5],
        nonce_bytes[6],
        nonce_bytes[7],
        nonce_bytes[8],
        nonce_bytes[9],
        nonce_bytes[10],
        nonce_bytes[11],
    ];
    proof {
        assert(nonce@ =~= nonce_bytes@);
    }
    Ok((salt, nonce, ciphertext))
}

/// The text an opening gives: the plaintext of the opened bytes, or the
/// message of what went wrong.
pub fn opened_to_text(opened: Option<Vec<u8>>) -> (r: Result<String, String>)
    ensures
        text_result(r) == opened_text(
            match opened {
                Some(p) => Some(p@),
                None => None::<Seq<u8>>,
            },
        ),
{
    match opened {
        None => Err(owned("Decryption failed (Wrong password or corrupted data)")),
        Some(p) => match string_from_utf8(p) {
            Some(s) => Ok(s),
            None => Err(owned("Invalid UTF-8 in decrypted data")),
        },
    }
}

/// Opens a record `salt:nonce:ciphertext` under `master_pass`.
pub fn decrypt_credential(encrypted_data: &str, master_pass: &str) -> (r: Result<String, String>)
    ensures
        text_result(r) == decryption_of(encrypted_data@, master_pass@),
{
    let (salt, nonce, ciphertext) = match parse_record(encrypted_data) {
        Ok(parts) => parts,
        Err(m) => return Err(m),
    };
    let key = derive_key(master_pass, salt.as_slice());
    let opened = match aes256gcm_decrypt(&key, &nonce, ciphertext.as_slice()) {
        Ok(p) => Some(p),
        Err(_) => None,
    };
    opened_to_text(opened)
}

} // verus!
