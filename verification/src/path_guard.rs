use vstd::prelude::*;

use crate::errors::VaultError;

verus! {

/// A user-supplied file name is acceptable exactly when it decomposes into a
/// single plain path segment: it is non-empty, holds no directory separator,
/// and is not a current- or parent-directory reference.
pub open spec fn is_valid_name(s: Seq<char>) -> bool {
    &&& s.len() > 0
    &&& (forall|i: int| 0 <= i < s.len() ==> s[i] != '/' && s[i] != '\\')
    &&& s != seq!['.']
    &&& s != seq!['.', '.']
}

/// Validates a user-supplied file name before it may touch storage, on
/// upload and on download alike. Rejection is a client error, never fatal.
pub fn validate(name: &str) -> (r: Result<(), VaultError>)
    ensures
        r is Ok <==> is_valid_name(name@),
        r matches Err(e) ==> e == VaultError::Rejected,
{
    let n = name.unicode_len();
    if n == 0 {
        return Err(VaultError::Rejected);
    }
    let mut i: usize = 0;
    while i < n
        invariant
            n == name@.len(),
            i <= n,
            forall|j: int| 0 <= j < i ==> name@[j] != '/' && name@[j] != '\\',
        decreases n - i,
    {
        let c = name.get_char(i);
        if c == '/' || c == '\\' {
            return Err(VaultError::Rejected);
        }
        i += 1;
    }
    if n == 1 && name.get_char(0) == '.' {
        proof {
            assert(name@ =~= seq!['.']);
        }
        return Err(VaultError::Rejected);
    }
    if n == 2 && name.get_char(0) == '.' && name.get_char(1) == '.' {
        proof {
            assert(name@ =~= seq!['.', '.']);
        }
        return Err(VaultError::Rejected);
    }
    proof {
        if name@ == seq!['.'] {
            assert(name@.len() == 1);
            assert(name@[0] == '.');
        }
        if name@ == seq!['.', '.'] {
            assert(name@.len() == 2);
            assert(name@[0] == '.');
            assert(name@[1] == '.');
        }
    }
    Ok(())
}

} // verus!
