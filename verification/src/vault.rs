use vstd::prelude::*;
use vstd::string::StringSliceAdditionalSpecFns;
use vstd::utf8::{encode_utf8, valid_utf8};

use crate::credentials::CredentialStore;
use crate::crypto::{
    aead_dec, decrypt_blob, derived_key, encrypt_contents, is_sealed_blob, MAX_PLAINTEXT_LEN,
    NONCE_LEN,
};
use crate::errors::VaultError;
use crate::filestore::FileStore;
use crate::hexcodec::hex_decode_spec;
use crate::path_guard::{is_valid_name, validate};
use crate::randgen::{generate_salt, is_valid_salt};
use crate::session::{Session, SessionStore, SESSION_LIFETIME_SECS};
use crate::types::{AuthRequest, DownloadReq, UploadFile};

verus! {

/// The store holds, under `(owner_id, name)`, a blob that is the sealed
/// form of `content` for the given password and the record's own salt.
pub open spec fn stores_encrypted(
    files: FileStore,
    owner_id: u64,
    name: Seq<char>,
    password: Seq<char>,
    content: Seq<char>,
) -> bool {
    &&& files.has_file(owner_id, name)
    &&& is_sealed_blob(
        files.file_of(owner_id, name).blob@,
        derived_key(encode_utf8(password), encode_utf8(files.file_of(owner_id, name).salt@)),
        content,
    )
}

/// Upload: validates the file name, draws a fresh random salt, derives the
/// key, seals the contents under it, and persists record and blob as one
/// unit, overwriting whatever the same `(owner_id, file_name)` held before.
///
/// The owner id must come from the caller's resolved session, never from an
/// untrusted request field; `Vault::upload_file` is the gated form.
pub fn upload(
    files: &mut FileStore,
    owner_id: u64,
    file_name: String,
    password: &str,
    contents: String,
) -> (r: Result<(), VaultError>)
    requires
        old(files).wf(),
        old(files).can_insert(),
        encode_utf8(contents@).len() <= MAX_PLAINTEXT_LEN,
    ensures
        final(files).wf(),
        !is_valid_name(file_name@) ==> r == Err::<(), VaultError>(VaultError::Rejected)
            && *final(files) == *old(files),
        is_valid_name(file_name@) ==> {
            &&& r == Ok::<(), VaultError>(())
            &&& stores_encrypted(*final(files), owner_id, file_name@, password@, contents@)
            &&& is_valid_salt(final(files).file_of(owner_id, file_name@).salt@)
            &&& (forall|o: u64, n: Seq<char>|
                !(o == owner_id && n == file_name@) ==> (final(files).has_file(o, n) <==> old(
                    files,
                ).has_file(o, n)))
            &&& (forall|o: u64, n: Seq<char>|
                !(o == owner_id && n == file_name@) && old(files).has_file(o, n)
                    ==> final(files).file_of(o, n) == old(files).file_of(o, n))
        },
{
    if let Err(e) = validate(file_name.as_str()) {
        return Err(e);
    }
    let salt = generate_salt();
    let request = UploadFile {
        file_name,
        file_contents: contents,
        password: password.to_owned(),
        salt,
    };
    let sealed = encrypt_contents(request);
    files.insert(owner_id, sealed.file_name, sealed.salt, sealed.file_contents);
    Ok(())
}

/// Download: validates the file name, looks the record up under the owner's
/// own key, re-validates the stored name, and decrypts the blob under the
/// key derived from the supplied password and the stored salt.
///
/// The round trip is part of the contract: whenever the record seals some
/// content for this password, exactly that content comes back. A wrong
/// password and corrupted data are indistinguishable (`Unauthorized`); an
/// authentic payload that is not valid text is `Corrupt`.
pub fn download(files: &FileStore, owner_id: u64, file_name: &str, password: &str) -> (r: Result<
    String,
    VaultError,
>)
    requires
        files.wf(),
    ensures
        !is_valid_name(file_name@) ==> r == Err::<String, VaultError>(VaultError::Rejected),
        is_valid_name(file_name@) && !files.has_file(owner_id, file_name@) ==> r == Err::<
            String,
            VaultError,
        >(VaultError::NotFound),
        is_valid_name(file_name@) && files.has_file(owner_id, file_name@) ==> ({
            let rec = files.file_of(owner_id, file_name@);
            let key = derived_key(encode_utf8(password@), encode_utf8(rec.salt@));
            let payload = hex_decode_spec(rec.blob@);
            let dec = aead_dec(
                key,
                payload.subrange(0, NONCE_LEN as int),
                payload.subrange(NONCE_LEN as int, payload.len() as int),
            );
            match r {
                Ok(s) => dec matches Some(p) && encode_utf8(s@) == p,
                Err(e) => (dec is None && e == VaultError::Unauthorized) || (dec matches Some(p)
                    && !valid_utf8(p) && e == VaultError::Corrupt),
            }
        }),
        r is Ok ==> is_valid_name(file_name@) && files.has_file(owner_id, file_name@),
        forall|content: Seq<char>|
            is_valid_name(file_name@) && stores_encrypted(
                *files,
                owner_id,
                file_name@,
                password@,
                content,
            ) ==> (r matches Ok(s) && s@ == content),
{
    if let Err(e) = validate(file_name) {
        return Err(e);
    }
    let row = match files.metadata_row(owner_id, file_name) {
        Some(row) => row,
        None => {
            return Err(VaultError::NotFound);
        },
    };
    // The stored name is never trusted transitively: it is re-validated
    // from the value read back out of the metadata store.
    if let Err(e) = validate(row.file_name.as_str()) {
        return Err(e);
    }
    let blob = match files.blob_of(owner_id, file_name) {
        Some(b) => b,
        None => {
            return Err(VaultError::NotFound);
        },
    };
    decrypt_blob(blob.as_str(), password, row.salt.as_str())
}

/// The whole service state: registered credentials, live sessions, and the
/// per-user encrypted file storage.
pub struct Vault {
    pub creds: CredentialStore,
    pub sessions: SessionStore,
    pub files: FileStore,
}

impl Vault {
    pub open spec fn wf(self) -> bool {
        &&& self.creds.wf()
        &&& self.sessions.wf()
        &&& self.files.wf()
    }

    /// The vault holds, under `(owner_id, name)`, a blob that is the sealed
    /// form of `content` for the given password and the record's own salt.
    pub open spec fn stores_content(
        self,
        owner_id: u64,
        name: Seq<char>,
        password: Seq<char>,
        content: Seq<char>,
    ) -> bool {
        stores_encrypted(self.files, owner_id, name, password, content)
    }

    /// An empty vault.
    pub fn new() -> (r: Vault)
        ensures
            r.wf(),
            r.creds.recs().len() == 0,
            r.creds.can_register(),
            r.sessions.recs().len() == 0,
            r.files.recs().len() == 0,
            r.files.can_insert(),
            forall|owner_id: u64, name: Seq<char>| !r.files.has_file(owner_id, name),
            forall|sid: u64| !r.sessions.has(sid),
    {
        Vault {
            creds: CredentialStore::new(),
            sessions: SessionStore::new(),
            files: FileStore::new(),
        }
    }

    /// Registration: fails with `Conflict` when the username is taken, and
    /// otherwise stores the credential and issues a session for the new
    /// user.
    pub fn auth(&mut self, req: &AuthRequest, now: u64) -> (r: Result<Session, VaultError>)
        requires
            old(self).wf(),
            old(self).creds.can_register(),
            now + SESSION_LIFETIME_SECS <= u64::MAX,
        ensures
            final(self).wf(),
            final(self).files == old(self).files,
            old(self).creds.contains_name(req.username@) ==> r == Err::<Session, VaultError>(
                VaultError::Conflict,
            ) && *final(self) == *old(self),
            !old(self).creds.contains_name(req.username@) ==> (r matches Ok(ssn) && {
                &&& final(self).creds.validates(req.username@, req.password@)
                &&& final(self).creds.cred_of(req.username@).user.id == old(self).creds.next_id()
                &&& ssn.user_id == old(self).creds.next_id()
                &&& ssn.created_at == now
                &&& ssn.expires_at == now + SESSION_LIFETIME_SECS
                &&& final(self).sessions.has(ssn.session_id)
                &&& final(self).sessions.rec_of(ssn.session_id) == ssn
                &&& final(self).sessions.session_ok(ssn.session_id, now, final(self).creds)
                &&& (forall|n: Seq<char>|
                    n != req.username@ ==> (final(self).creds.contains_name(n) <==> old(
                        self,
                    ).creds.contains_name(n)))
                &&& (forall|n: Seq<char>|
                    n != req.username@ && old(self).creds.contains_name(n)
                        ==> final(self).creds.cred_of(n) == old(self).creds.cred_of(n))
                &&& (forall|sid: u64|
                    sid != ssn.session_id ==> (final(self).sessions.has(sid) <==> old(
                        self,
                    ).sessions.has(sid)))
            }),
    {
        if self.creds.is_present(req.username.as_str()) {
            return Err(VaultError::Conflict);
        }
        let id = match self.creds.add_user(req.username.as_str(), req.password.as_str()) {
            Ok(id) => id,
            Err(_) => {
                return Err(VaultError::Conflict);
            },
        };
        let ssn = Session::new(id, now);
        self.sessions.session_serialize(ssn);
        Ok(ssn)
    }

    /// Login: `NotFound` for an unknown username, `Unauthorized` for a bad
    /// password, and otherwise a fresh session bound to the stored user id.
    pub fn login(&mut self, req: &AuthRequest, now: u64) -> (r: Result<Session, VaultError>)
        requires
            old(self).wf(),
            now + SESSION_LIFETIME_SECS <= u64::MAX,
        ensures
            final(self).wf(),
            final(self).creds == old(self).creds,
            final(self).files == old(self).files,
            !old(self).creds.contains_name(req.username@) ==> r == Err::<Session, VaultError>(
                VaultError::NotFound,
            ) && *final(self) == *old(self),
            old(self).creds.contains_name(req.username@) && !old(self).creds.validates(
                req.username@,
                req.password@,
            ) ==> r == Err::<Session, VaultError>(VaultError::Unauthorized) && *final(self)
                == *old(self),
            old(self).creds.validates(req.username@, req.password@) ==> (r matches Ok(ssn) && {
                &&& ssn.user_id == old(self).creds.cred_of(req.username@).user.id
                &&& ssn.created_at == now
                &&& ssn.expires_at == now + SESSION_LIFETIME_SECS
                &&& final(self).sessions.has(ssn.session_id)
                &&& final(self).sessions.rec_of(ssn.session_id) == ssn
                &&& final(self).sessions.session_ok(ssn.session_id, now, final(self).creds)
                &&& (forall|sid: u64|
                    sid != ssn.session_id ==> (final(self).sessions.has(sid) <==> old(
                        self,
                    ).sessions.has(sid)))
            }),
    {
        if !self.creds.is_present(req.username.as_str()) {
            return Err(VaultError::NotFound);
        }
        if !self.creds.validate_user(req.username.as_str(), req.password.as_str()) {
            return Err(VaultError::Unauthorized);
        }
        let id = match self.creds.get_user_id(req.username.as_str()) {
            Ok(id) => id,
            Err(_) => {
                return Err(VaultError::NotFound);
            },
        };
        let ssn = Session::new(id, now);
        self.sessions.session_serialize(ssn);
        proof {
            assert(self.creds.contains_id(ssn.user_id));
        }
        Ok(ssn)
    }

    /// Upload: resolves the caller's session to an owner id, validates the
    /// file name, draws a fresh salt, seals the contents under the derived
    /// key, and stores record and blob as one unit, overwriting whatever
    /// the same `(owner, name)` held before.
    pub fn upload_file(
        &mut self,
        session_id: u64,
        now: u64,
        file_name: String,
        file_contents: String,
        password: &str,
    ) -> (r: Result<(), VaultError>)
        requires
            old(self).wf(),
            old(self).files.can_insert(),
            encode_utf8(file_contents@).len() <= MAX_PLAINTEXT_LEN,
        ensures
            final(self).wf(),
            final(self).creds == old(self).creds,
            final(self).sessions == old(self).sessions,
            !old(self).sessions.session_ok(session_id, now, old(self).creds) ==> r == Err::<
                (),
                VaultError,
            >(VaultError::Unauthorized) && *final(self) == *old(self),
            old(self).sessions.session_ok(session_id, now, old(self).creds) && !is_valid_name(
                file_name@,
            ) ==> r == Err::<(), VaultError>(VaultError::Rejected) && *final(self) == *old(self),
            old(self).sessions.session_ok(session_id, now, old(self).creds) && is_valid_name(
                file_name@,
            ) ==> ({
                let owner = old(self).sessions.rec_of(session_id).user_id;
                &&& r == Ok::<(), VaultError>(())
                &&& final(self).stores_content(owner, file_name@, password@, file_contents@)
                &&& is_valid_salt(final(self).files.file_of(owner, file_name@).salt@)
                &&& (forall|o: u64, n: Seq<char>|
                    !(o == owner && n == file_name@) ==> (final(self).files.has_file(o, n) <==> old(
                        self,
                    ).files.has_file(o, n)))
                &&& (forall|o: u64, n: Seq<char>|
                    !(o == owner && n == file_name@) && old(self).files.has_file(o, n)
                        ==> final(self).files.file_of(o, n) == old(self).files.file_of(o, n))
            }),
    {
        let owner = match self.sessions.session_valid(session_id, now, &self.creds) {
            Ok(uid) => uid,
            Err(e) => {
                return Err(e);
            },
        };
        upload(&mut self.files, owner, file_name, password, file_contents)
    }

    /// Download: resolves the caller's session to an owner id — the request
    /// itself never names an owner — validates the file name, looks the
    /// record up under `(owner, name)`, re-validates the stored name, and
    /// decrypts the blob under the key derived from the supplied password
    /// and the stored salt.
    ///
    /// The round trip is part of the contract: whenever the record under
    /// the session's own key seals some content for this password, exactly
    /// that content comes back. A result is only ever `Ok` for a live
    /// session, on the owner's own record, after decryption under the
    /// supplied password succeeded.
    pub fn download_file(&self, session_id: u64, now: u64, req: &DownloadReq) -> (r: Result<
        String,
        VaultError,
    >)
        requires
            self.wf(),
        ensures
            !self.sessions.session_ok(session_id, now, self.creds) ==> r == Err::<
                String,
                VaultError,
            >(VaultError::Unauthorized),
            self.sessions.session_ok(session_id, now, self.creds) && !is_valid_name(
                req.file_name@,
            ) ==> r == Err::<String, VaultError>(VaultError::Rejected),
            self.sessions.session_ok(session_id, now, self.creds) && is_valid_name(req.file_name@)
                && !self.files.has_file(
                self.sessions.rec_of(session_id).user_id,
                req.file_name@,
            ) ==> r == Err::<String, VaultError>(VaultError::NotFound),
            self.sessions.session_ok(session_id, now, self.creds) && is_valid_name(req.file_name@)
                && self.files.has_file(
                self.sessions.rec_of(session_id).user_id,
                req.file_name@,
            ) ==> ({
                let rec = self.files.file_of(self.sessions.rec_of(session_id).user_id, req.file_name@);
                let key = derived_key(encode_utf8(req.password@), encode_utf8(rec.salt@));
                let payload = hex_decode_spec(rec.blob@);
                let dec = aead_dec(
                    key,
                    payload.subrange(0, NONCE_LEN as int),
                    payload.subrange(NONCE_LEN as int, payload.len() as int),
                );
                match r {
                    Ok(s) => dec matches Some(p) && encode_utf8(s@) == p,
                    Err(e) => (dec is None && e == VaultError::Unauthorized) || (dec matches Some(
                        p,
                    ) && !valid_utf8(p) && e == VaultError::Corrupt),
                }
            }),
            r is Ok ==> self.sessions.session_ok(session_id, now, self.creds) && is_valid_name(
                req.file_name@,
            ) && self.files.has_file(self.sessions.rec_of(session_id).user_id, req.file_name@),
            forall|content: Seq<char>|
                self.sessions.session_ok(session_id, now, self.creds) && is_valid_name(
                    req.file_name@,
                ) && self.stores_content(
                    self.sessions.rec_of(session_id).user_id,
                    req.file_name@,
                    req.password@,
                    content,
                ) ==> (r matches Ok(s) && s@ == content),
    {
        let owner = match self.sessions.session_valid(session_id, now, &self.creds) {
            Ok(uid) => uid,
            Err(e) => {
                return Err(e);
            },
        };
        download(&self.files, owner, req.file_name.as_str(), req.password.as_str())
    }
}

} // verus!
