use senmon::errors::VaultError;
use senmon::types::{AuthRequest, DownloadReq};
use senmon::vault::Vault;

fn auth_req(username: &str, password: &str) -> AuthRequest {
    AuthRequest { username: username.to_string(), password: password.to_string() }
}

fn download_req(file_name: &str, password: &str) -> DownloadReq {
    DownloadReq { file_name: file_name.to_string(), password: password.to_string() }
}

#[test]
fn round_trip_upload_download() {
    let mut v = Vault::new();
    let ssn = v.auth(&auth_req("alice", "alicepw"), 1_000).unwrap();
    let up = v.upload_file(
        ssn.session_id,
        1_000,
        "notes.txt".to_string(),
        "dear diary, nothing happened".to_string(),
        "filepw",
    );
    assert_eq!(up, Ok(()));
    let dl = v.download_file(ssn.session_id, 1_500, &download_req("notes.txt", "filepw"));
    assert_eq!(dl, Ok("dear diary, nothing happened".to_string()));
}

#[test]
fn wrong_password_is_unauthorized() {
    let mut v = Vault::new();
    let ssn = v.auth(&auth_req("alice", "alicepw"), 1_000).unwrap();
    let up = v.upload_file(
        ssn.session_id,
        1_000,
        "secret".to_string(),
        "the treasure is buried at noon".to_string(),
        "right horse battery",
    );
    assert_eq!(up, Ok(()));
    let dl = v.download_file(
        ssn.session_id,
        1_000,
        &download_req("secret", "wrong horse battery"),
    );
    assert_eq!(dl, Err(VaultError::Unauthorized));
}

#[test]
fn salt_and_blob_unique_across_identical_uploads() {
    let mut v = Vault::new();
    let alice = v.auth(&auth_req("alice", "alicepw"), 1_000).unwrap();
    let bob = v.auth(&auth_req("bob", "bobpw"), 1_000).unwrap();
    let content = "the very same content".to_string();
    assert_eq!(
        v.upload_file(alice.session_id, 1_000, "a".to_string(), content.clone(), "pw"),
        Ok(())
    );
    assert_eq!(
        v.upload_file(alice.session_id, 1_000, "b".to_string(), content.clone(), "pw"),
        Ok(())
    );
    assert_eq!(
        v.upload_file(bob.session_id, 1_000, "a".to_string(), content.clone(), "pw"),
        Ok(())
    );
    let blob_a = v.files.blob_of(alice.user_id, "a").unwrap();
    let blob_b = v.files.blob_of(alice.user_id, "b").unwrap();
    let blob_bob = v.files.blob_of(bob.user_id, "a").unwrap();
    assert_ne!(blob_a, blob_b);
    assert_ne!(blob_a, blob_bob);
    assert_ne!(blob_b, blob_bob);
    let salt_a = v.files.metadata_row(alice.user_id, "a").unwrap().salt;
    let salt_b = v.files.metadata_row(alice.user_id, "b").unwrap().salt;
    assert_ne!(salt_a, salt_b);
    assert_eq!(salt_a.len(), 32);
    assert_eq!(salt_b.len(), 32);
}

#[test]
fn path_traversal_rejected() {
    let mut v = Vault::new();
    let ssn = v.auth(&auth_req("alice", "alicepw"), 1_000).unwrap();
    for bad in ["../secret", "a/b", "..", ".", "", "a\\b", "/etc/passwd", "x/../y"] {
        let up = v.upload_file(
            ssn.session_id,
            1_000,
            bad.to_string(),
            "contents".to_string(),
            "pw",
        );
        assert_eq!(up, Err(VaultError::Rejected), "upload accepted bad name {:?}", bad);
        let dl = v.download_file(ssn.session_id, 1_000, &download_req(bad, "pw"));
        assert_eq!(dl, Err(VaultError::Rejected), "download accepted bad name {:?}", bad);
    }
    assert_eq!(senmon::path_guard::validate("notes.txt"), Ok(()));
    assert_eq!(senmon::path_guard::validate("..."), Ok(()));
    assert_eq!(senmon::path_guard::validate(".."), Err(VaultError::Rejected));
}

#[test]
fn cross_user_isolation() {
    let mut v = Vault::new();
    let alice = v.auth(&auth_req("alice", "alicepw"), 1_000).unwrap();
    let bob = v.auth(&auth_req("bob", "bobpw"), 1_000).unwrap();
    assert_eq!(
        v.upload_file(
            alice.session_id,
            1_000,
            "doc".to_string(),
            "alice's words".to_string(),
            "alice file pw",
        ),
        Ok(())
    );
    // Bob names Alice's exact file and her correct password, but his
    // session scopes the lookup to his own storage area.
    let dl = v.download_file(bob.session_id, 1_000, &download_req("doc", "alice file pw"));
    assert_eq!(dl, Err(VaultError::NotFound));
    // Alice herself still reaches it.
    let dl = v.download_file(alice.session_id, 1_000, &download_req("doc", "alice file pw"));
    assert_eq!(dl, Ok("alice's words".to_string()));
}

#[test]
fn idempotent_overwrite_keeps_second_upload_only() {
    let mut v = Vault::new();
    let ssn = v.auth(&auth_req("alice", "alicepw"), 1_000).unwrap();
    assert_eq!(
        v.upload_file(
            ssn.session_id,
            1_000,
            "report".to_string(),
            "first draft".to_string(),
            "first pw",
        ),
        Ok(())
    );
    let first_blob = v.files.blob_of(ssn.user_id, "report").unwrap();
    assert_eq!(
        v.upload_file(
            ssn.session_id,
            1_000,
            "report".to_string(),
            "second draft".to_string(),
            "second pw",
        ),
        Ok(())
    );
    let second_blob = v.files.blob_of(ssn.user_id, "report").unwrap();
    assert_ne!(first_blob, second_blob);
    let dl = v.download_file(ssn.session_id, 1_000, &download_req("report", "second pw"));
    assert_eq!(dl, Ok("second draft".to_string()));
    let dl = v.download_file(ssn.session_id, 1_000, &download_req("report", "first pw"));
    assert_eq!(dl, Err(VaultError::Unauthorized));
}

#[test]
fn duplicate_registration_is_conflict() {
    let mut v = Vault::new();
    assert!(v.auth(&auth_req("alice", "alicepw"), 1_000).is_ok());
    let again = v.auth(&auth_req("alice", "otherpw"), 2_000);
    assert!(matches!(again, Err(VaultError::Conflict)));
}

#[test]
fn login_flows() {
    let mut v = Vault::new();
    let reg = v.auth(&auth_req("alice", "alicepw"), 1_000).unwrap();
    assert_eq!(
        v.login(&auth_req("nobody", "alicepw"), 1_000).unwrap_err(),
        VaultError::NotFound
    );
    assert_eq!(
        v.login(&auth_req("alice", "wrongpw"), 1_000).unwrap_err(),
        VaultError::Unauthorized
    );
    let ssn = v.login(&auth_req("alice", "alicepw"), 1_000).unwrap();
    assert_eq!(ssn.user_id, reg.user_id);
    assert_eq!(ssn.created_at, 1_000);
    assert_eq!(ssn.expires_at, 1_000 + 3_600);
    assert_eq!(
        v.upload_file(ssn.session_id, 1_000, "n".to_string(), "text".to_string(), "pw"),
        Ok(())
    );
    assert_eq!(
        v.download_file(ssn.session_id, 1_000, &download_req("n", "pw")),
        Ok("text".to_string())
    );
}

#[test]
fn unknown_file_is_not_found() {
    let mut v = Vault::new();
    let ssn = v.auth(&auth_req("alice", "alicepw"), 1_000).unwrap();
    let dl = v.download_file(ssn.session_id, 1_000, &download_req("missing", "pw"));
    assert_eq!(dl, Err(VaultError::NotFound));
}

#[test]
fn unknown_session_is_unauthorized() {
    let mut v = Vault::new();
    let ssn = v.auth(&auth_req("alice", "alicepw"), 1_000).unwrap();
    assert_eq!(
        v.upload_file(ssn.session_id, 1_000, "n".to_string(), "text".to_string(), "pw"),
        Ok(())
    );
    let other = ssn.session_id.wrapping_add(1);
    let dl = v.download_file(other, 1_000, &download_req("n", "pw"));
    assert_eq!(dl, Err(VaultError::Unauthorized));
}

#[test]
fn empty_content_round_trips() {
    let mut v = Vault::new();
    let ssn = v.auth(&auth_req("alice", "alicepw"), 1_000).unwrap();
    assert_eq!(
        v.upload_file(ssn.session_id, 1_000, "empty".to_string(), String::new(), "pw"),
        Ok(())
    );
    assert_eq!(
        v.download_file(ssn.session_id, 1_000, &download_req("empty", "pw")),
        Ok(String::new())
    );
}

#[test]
fn unicode_content_round_trips() {
    let mut v = Vault::new();
    let ssn = v.auth(&auth_req("alice", "alicepw"), 1_000).unwrap();
    let content = "naïve — приве́т — 你好 — 🗝️".to_string();
    assert_eq!(
        v.upload_file(ssn.session_id, 1_000, "uni".to_string(), content.clone(), "pw"),
        Ok(())
    );
    assert_eq!(
        v.download_file(ssn.session_id, 1_000, &download_req("uni", "pw")),
        Ok(content)
    );
}

#[test]
fn owner_scoped_operations() {
    // The vault operations themselves, below the session layer: the owner
    // id scopes every lookup.
    let mut v = Vault::new();
    assert_eq!(
        senmon::vault::upload(&mut v.files, 7, "memo".to_string(), "pw", "content".to_string()),
        Ok(())
    );
    assert_eq!(
        senmon::vault::download(&v.files, 7, "memo", "pw"),
        Ok("content".to_string())
    );
    assert_eq!(
        senmon::vault::download(&v.files, 8, "memo", "pw"),
        Err(VaultError::NotFound)
    );
    assert_eq!(
        senmon::vault::upload(&mut v.files, 7, "a/b".to_string(), "pw", "c".to_string()),
        Err(VaultError::Rejected)
    );
}

#[test]
fn error_labels() {
    assert_eq!(VaultError::Conflict.label(), "conflict");
    assert_eq!(VaultError::NotFound.label(), "not found");
    assert_eq!(VaultError::Unauthorized.label(), "unauthorized");
    assert_eq!(VaultError::Rejected.label(), "rejected");
    assert_eq!(VaultError::Corrupt.label(), "corrupt");
}
