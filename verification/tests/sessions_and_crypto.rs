use senmon::errors::VaultError;
use senmon::session::SESSION_LIFETIME_SECS;
use senmon::types::{AuthRequest, DownloadReq};
use senmon::vault::Vault;

fn auth_req(username: &str, password: &str) -> AuthRequest {
    AuthRequest { username: username.to_string(), password: password.to_string() }
}

fn download_req(file_name: &str, password: &str) -> DownloadReq {
    DownloadReq { file_name: file_name.to_string(), password: password.to_string() }
}

fn to_hex(bytes: &[u8]) -> String {
    let mut s = String::new();
    for b in bytes {
        s.push_str(&format!("{:02x}", b));
    }
    s
}

#[test]
fn session_expires_after_exactly_one_lifetime() {
    let issued_at: u64 = 10_000;
    let mut v = Vault::new();
    let ssn = v.auth(&auth_req("alice", "alicepw"), issued_at).unwrap();
    assert_eq!(ssn.created_at, issued_at);
    assert_eq!(ssn.expires_at, issued_at + SESSION_LIFETIME_SECS);
    assert_eq!(
        v.upload_file(ssn.session_id, issued_at, "n".to_string(), "text".to_string(), "pw"),
        Ok(())
    );
    // A session never expires before one lifetime has passed ...
    for now in [issued_at, issued_at + 1, issued_at + SESSION_LIFETIME_SECS - 1, issued_at
        + SESSION_LIFETIME_SECS] {
        let r = v.sessions.session_valid(ssn.session_id, now, &v.creds);
        assert_eq!(r, Ok(ssn.user_id));
    }
    assert_eq!(
        v.download_file(
            ssn.session_id,
            issued_at + SESSION_LIFETIME_SECS,
            &download_req("n", "pw"),
        ),
        Ok("text".to_string())
    );
    // ... and is refused from the first second after it.
    let late = issued_at + SESSION_LIFETIME_SECS + 1;
    assert_eq!(
        v.sessions.session_valid(ssn.session_id, late, &v.creds),
        Err(VaultError::Unauthorized)
    );
    assert_eq!(
        v.download_file(ssn.session_id, late, &download_req("n", "pw")),
        Err(VaultError::Unauthorized)
    );
}

#[test]
fn session_of_deleted_user_is_refused() {
    let mut v = Vault::new();
    let ssn = v.auth(&auth_req("alice", "alicepw"), 1_000).unwrap();
    assert_eq!(v.sessions.session_valid(ssn.session_id, 1_000, &v.creds), Ok(ssn.user_id));
    assert_eq!(v.creds.delete_user("alice"), Ok(()));
    assert_eq!(
        v.sessions.session_valid(ssn.session_id, 1_000, &v.creds),
        Err(VaultError::Unauthorized)
    );
    assert_eq!(v.creds.delete_user("alice"), Err(VaultError::NotFound));
}

#[test]
fn credential_store_basics() {
    let mut v = Vault::new();
    assert!(!v.creds.is_present("alice"));
    assert_eq!(v.creds.get_user_id("alice"), Err(VaultError::NotFound));
    let id = v.creds.add_user("alice", "pw").unwrap();
    assert!(v.creds.is_present("alice"));
    assert_eq!(v.creds.get_user_id("alice"), Ok(id));
    assert!(v.creds.contains_user_id(id));
    assert!(v.creds.validate_user("alice", "pw"));
    assert!(!v.creds.validate_user("alice", "pW"));
    assert!(!v.creds.validate_user("alicia", "pw"));
    assert_eq!(v.creds.add_user("alice", "pw2"), Err(VaultError::Conflict));
    let other = v.creds.add_user("bob", "pw").unwrap();
    assert_ne!(id, other);
}

#[test]
fn derive_is_deterministic_and_salted() {
    let k1 = senmon::crypto::derive("password", "salt-one");
    let k2 = senmon::crypto::derive("password", "salt-one");
    let k3 = senmon::crypto::derive("password", "salt-two");
    let k4 = senmon::crypto::derive("password!", "salt-one");
    assert_eq!(k1.len(), 32);
    assert_eq!(k1, k2);
    assert_ne!(k1, k3);
    assert_ne!(k1, k4);
}

#[test]
fn seal_and_unseal_bytes() {
    let key = senmon::crypto::derive("pw", "salt");
    let plaintext: Vec<u8> = vec![0u8, 1, 2, 250, 251, 252, 253, 254, 255];
    let payload = senmon::crypto::seal(&key, &plaintext);
    assert_eq!(payload.len(), plaintext.len() + 12 + 16);
    assert_eq!(senmon::crypto::unseal(&key, &payload), Some(plaintext.clone()));
    let other_key = senmon::crypto::derive("pw2", "salt");
    assert_eq!(senmon::crypto::unseal(&other_key, &payload), None);
    // Any bit-level corruption fails closed.
    let mut tampered = payload.clone();
    let last = tampered.len() - 1;
    tampered[last] ^= 1;
    assert_eq!(senmon::crypto::unseal(&key, &tampered), None);
    assert_eq!(senmon::crypto::unseal(&key, &payload[..20]), None);
    assert_eq!(senmon::crypto::unseal(&key, &payload[..5]), None);
    // A fresh nonce each time: sealing twice never repeats the payload.
    let payload2 = senmon::crypto::seal(&key, &plaintext);
    assert_ne!(payload, payload2);
    assert_ne!(payload[..12], payload2[..12]);
}

#[test]
fn stored_blob_is_lowercase_hex() {
    let mut v = Vault::new();
    let ssn = v.auth(&auth_req("alice", "alicepw"), 1_000).unwrap();
    let content = "twelve bytes";
    assert_eq!(
        v.upload_file(ssn.session_id, 1_000, "f".to_string(), content.to_string(), "pw"),
        Ok(())
    );
    let blob = v.files.blob_of(ssn.user_id, "f").unwrap();
    // Two hex digits per byte of nonce (12) + contents (12) + tag (16).
    assert_eq!(blob.len(), 2 * (12 + content.len() + 16));
    assert!(blob.chars().all(|c| c.is_ascii_hexdigit() && !c.is_ascii_uppercase()));
    assert!(!blob.contains(content));
}

#[test]
fn authentic_payload_of_invalid_text_is_corrupt() {
    let mut v = Vault::new();
    let ssn = v.auth(&auth_req("alice", "alicepw"), 1_000).unwrap();
    let salt = "0123456789abcdefghijklmnopqrstuv";
    let key = senmon::crypto::derive("pw", salt);
    // 0xc3 followed by 0x28 is not valid UTF-8.
    let payload = senmon::crypto::seal(&key, &[0xc3, 0x28, 0x00, 0x9f]);
    let blob = to_hex(&payload);
    v.files.insert(ssn.user_id, "weird".to_string(), salt.to_string(), blob);
    let dl = v.download_file(ssn.session_id, 1_000, &download_req("weird", "pw"));
    assert_eq!(dl, Err(VaultError::Corrupt));
    // With the wrong password the same record is merely unauthorized.
    let dl = v.download_file(ssn.session_id, 1_000, &download_req("weird", "other"));
    assert_eq!(dl, Err(VaultError::Unauthorized));
}

fn from_hex(s: &str) -> Vec<u8> {
    let digits: Vec<u8> = s
        .chars()
        .map(|c| c.to_digit(16).expect("not a hex digit") as u8)
        .collect();
    digits.chunks(2).map(|pair| pair[0] * 16 + pair[1]).collect()
}

#[test]
fn stored_blob_decodes_to_sealed_payload() {
    let mut v = Vault::new();
    let ssn = v.auth(&auth_req("alice", "alicepw"), 1_000).unwrap();
    let content = "plain words";
    assert_eq!(
        v.upload_file(ssn.session_id, 1_000, "p".to_string(), content.to_string(), "pw"),
        Ok(())
    );
    let blob = v.files.blob_of(ssn.user_id, "p").unwrap();
    let payload = from_hex(&blob);
    let salt = v.files.metadata_row(ssn.user_id, "p").unwrap().salt;
    let key = senmon::crypto::derive("pw", &salt);
    assert_eq!(senmon::crypto::unseal(&key, &payload), Some(content.as_bytes().to_vec()));
    // The round trip through the test's own decoder pins the stored form:
    // lowercase hex of nonce || ciphertext || tag, and nothing else.
    assert_eq!(to_hex(&payload), blob);
}

#[test]
fn generated_salts_are_alphanumeric_and_fresh() {
    let s1 = senmon::randgen::generate_salt();
    let s2 = senmon::randgen::generate_salt();
    assert_eq!(s1.len(), 32);
    assert_eq!(s2.len(), 32);
    assert_ne!(s1, s2);
    assert!(s1.chars().all(|c| c.is_ascii_alphanumeric()));
}

#[test]
fn clock_is_sane() {
    let t = senmon::clock::now_unix();
    // After 2020 by any reasonable clock, and far below the clamp.
    assert!(t > 1_577_836_800);
    assert!(t < 0x7fff_ffff_ffff_ffff);
}
