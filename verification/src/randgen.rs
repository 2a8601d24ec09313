use rand::Rng;
use vstd::prelude::*;

verus! {

/// A character the Alphanumeric distribution can produce: an ASCII digit
/// or letter of either case.
pub open spec fn is_salt_char(c: char) -> bool {
    let u = c as u32;
    (0x30 <= u && u <= 0x39) || (0x41 <= u && u <= 0x5a) || (0x61 <= u && u <= 0x7a)
}

/// The shape every generated salt has: 32 ASCII alphanumeric characters.
pub open spec fn is_valid_salt(s: Seq<char>) -> bool {
    &&& s.len() == 32
    &&& forall|i: int| 0 <= i < s.len() ==> is_salt_char(s[i])
}

/// Relies on rand::thread_rng sampling the Alphanumeric distribution: 32
/// random characters, each an ASCII digit or letter. Which characters come
/// out is not promised.
#[verifier::external_body]
pub fn generate_salt() -> (salt: String)
    ensures
        is_valid_salt(salt@),
{
    rand::thread_rng().sample_iter(&rand::distributions::Alphanumeric).take(32).map(
        char::from,
    ).collect()
}

/// Relies on rand::random: a session token drawn from a cryptographically
/// secure source with 64 bits of entropy. Nothing is promised of its value.
#[verifier::external_body]
pub(crate) fn random_u64() -> u64 {
    rand::random()
}

} // verus!
