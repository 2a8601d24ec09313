use vstd::prelude::*;

verus! {

/// A registered user: a generated unique id and a unique username.
pub struct User {
    pub id: u64,
    pub name: String,
}

/// The identity of a stored file: a generated id, the validated file name,
/// and the id of the user who owns it.
pub struct FileAsset {
    pub id: u64,
    pub name: String,
    pub owner_id: u64,
}

impl FileAsset {
    /// An equal copy, usable where a contract needs the two values to be
    /// equal.
    pub fn clone_asset(&self) -> (r: FileAsset)
        ensures
            r == *self,
    {
        FileAsset { id: self.id, name: self.name.clone(), owner_id: self.owner_id }
    }
}

/// A registration or login request: a username and a password.
pub struct AuthRequest {
    pub username: String,
    pub password: String,
}

/// A download request: the file name to fetch and the password to decrypt
/// it with. The owner is never part of the request; it comes from the
/// caller's session.
pub struct DownloadReq {
    pub file_name: String,
    pub password: String,
}

/// An upload in flight: the file name, the contents (plain text before
/// sealing, the hex-encoded sealed payload after), the password, and the
/// salt drawn for this upload.
pub struct UploadFile {
    pub file_name: String,
    pub file_contents: String,
    pub password: String,
    pub salt: String,
}

/// The metadata row stored for a file: its name and the salt its key was
/// derived with. The ciphertext itself lives beside it as a hex blob.
pub struct DatabaseRow {
    pub file_name: String,
    pub salt: String,
}

} // verus!
