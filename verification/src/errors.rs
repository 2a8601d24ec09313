use vstd::prelude::*;

verus! {

/// The failure kinds a vault operation can surface.
///
/// `Unauthorized` deliberately covers bad credentials, invalid or expired
/// sessions, and failed decryption authentication alike, so that a caller
/// cannot tell which check failed.
#[derive(Clone, Copy, Debug, PartialEq, Eq, Structural)]
pub enum VaultError {
    /// A registration collides with an existing username.
    Conflict,
    /// The named user or file does not exist for this caller.
    NotFound,
    /// Bad credentials, an invalid or expired session, or a decryption
    /// whose authentication check failed.
    Unauthorized,
    /// A file name that does not decompose into a single plain path segment.
    Rejected,
    /// Decrypted bytes that are not valid text.
    Corrupt,
}

impl VaultError {
    /// A short stable label for the error, for callers that need to print it.
    pub fn label(&self) -> (r: &'static str)
        ensures
            r@ == match *self {
                VaultError::Conflict => "conflict"@,
                VaultError::NotFound => "not found"@,
                VaultError::Unauthorized => "unauthorized"@,
                VaultError::Rejected => "rejected"@,
                VaultError::Corrupt => "corrupt"@,
            },
    {
        match self {
            VaultError::Conflict => "conflict",
            VaultError::NotFound => "not found",
            VaultError::Unauthorized => "unauthorized",
            VaultError::Rejected => "rejected",
            VaultError::Corrupt => "corrupt",
        }
    }
}

} // verus!
