use vstd::prelude::*;
use vstd::string::StringSliceAdditionalSpecFns;
use vstd::utf8::encode_utf8;

use crate::crypto::derived_key;
use crate::errors::VaultError;
use crate::randgen::generate_salt;
use crate::strutil::str_eq;
use crate::types::User;

verus! {

/// One stored credential: the user's identity, the salt drawn at
/// registration, and the slow salted one-way hash of the password. The
/// password itself is never stored.
pub struct CredRecord {
    pub user: User,
    pub pwd_salt: String,
    pub pwd_hash: Vec<u8>,
}

/// Registers and validates username/password pairs. Usernames are unique;
/// ids are generated and never reused.
pub struct CredentialStore {
    users: Vec<CredRecord>,
    next_id: u64,
}

impl CredentialStore {
    /// The stored records, for specification purposes.
    pub closed spec fn recs(self) -> Seq<CredRecord> {
        self.users@
    }

    /// The id the next registration will receive.
    pub closed spec fn next_id(self) -> u64 {
        self.next_id
    }

    /// Usernames are unique, ids are unique, and every id lies below the
    /// generation counter.
    pub open spec fn wf(self) -> bool {
        &&& (forall|i: int, j: int|
            0 <= i < j < self.recs().len() ==> self.recs()[i].user.name@
                != self.recs()[j].user.name@)
        &&& (forall|i: int, j: int|
            0 <= i < j < self.recs().len() ==> self.recs()[i].user.id != self.recs()[j].user.id)
        &&& (forall|i: int| 0 <= i < self.recs().len() ==> self.recs()[i].user.id < self.next_id())
    }

    /// Whether a further registration can still draw a fresh id.
    pub open spec fn can_register(self) -> bool {
        self.next_id() < u64::MAX
    }

    pub open spec fn contains_name(self, name: Seq<char>) -> bool {
        exists|i: int| 0 <= i < self.recs().len() && self.recs()[i].user.name@ == name
    }

    /// The record registered under a username.
    pub open spec fn cred_of(self, name: Seq<char>) -> CredRecord
        recommends
            self.contains_name(name),
    {
        self.recs()[choose|i: int|
            0 <= i < self.recs().len() && self.recs()[i].user.name@ == name]
    }

    pub open spec fn contains_id(self, id: u64) -> bool {
        exists|i: int| 0 <= i < self.recs().len() && self.recs()[i].user.id == id
    }

    /// A username/password pair is valid exactly when the username is
    /// registered and the password hashes, under the stored salt, to the
    /// stored hash.
    pub open spec fn validates(self, name: Seq<char>, password: Seq<char>) -> bool {
        &&& self.contains_name(name)
        &&& self.cred_of(name).pwd_hash@ == derived_key(
            encode_utf8(password),
            encode_utf8(self.cred_of(name).pwd_salt@),
        )
    }

    /// With usernames unique, any index holding a name holds the record
    /// `cred_of` denotes.
    pub proof fn lemma_cred_at(self, name: Seq<char>, i: int)
        requires
            self.wf(),
            0 <= i < self.recs().len(),
            self.recs()[i].user.name@ == name,
        ensures
            self.contains_name(name),
            self.cred_of(name) == self.recs()[i],
    {
        let j = choose|j: int| 0 <= j < self.recs().len() && self.recs()[j].user.name@ == name;
        if i < j {
            assert(self.recs()[i].user.name@ != self.recs()[j].user.name@);
        } else if j < i {
            assert(self.recs()[j].user.name@ != self.recs()[i].user.name@);
        }
    }

    /// An empty store.
    pub fn new() -> (r: CredentialStore)
        ensures
            r.wf(),
            r.recs().len() == 0,
            r.next_id() == 0,
            r.can_register(),
    {
        CredentialStore { users: Vec::new(), next_id: 0 }
    }

    /// Whether a further registration can still draw a fresh id: the
    /// runtime form of `can_register`, for callers outside the proof.
    pub fn has_capacity(&self) -> (r: bool)
        ensures
            r == self.can_register(),
    {
        self.next_id < u64::MAX
    }

    /// Whether a username is already registered.
    pub fn is_present(&self, user_name: &str) -> (r: bool)
        ensures
            r == self.contains_name(user_name@),
    {
        let n = self.users.len();
        let mut i: usize = 0;
        while i < n
            invariant
                n == self.recs().len(),
                i <= n,
                forall|j: int| 0 <= j < i ==> self.recs()[j].user.name@ != user_name@,
            decreases n - i,
        {
            if str_eq(self.users[i].user.name.as_str(), user_name) {
                return true;
            }
            i += 1;
        }
        false
    }

    /// Registers a username/password pair: fails with `Conflict` when the
    /// username is taken, and otherwise stores the salted password hash
    /// under a fresh id, which it returns.
    pub fn add_user(&mut self, user_name: &str, password: &str) -> (r: Result<u64, VaultError>)
        requires
            old(self).wf(),
            old(self).can_register(),
        ensures
            final(self).wf(),
            old(self).contains_name(user_name@) ==> r == Err::<u64, VaultError>(
                VaultError::Conflict,
            ) && *final(self) == *old(self),
            !old(self).contains_name(user_name@) ==> {
                &&& r == Ok::<u64, VaultError>(old(self).next_id())
                &&& final(self).validates(user_name@, password@)
                &&& final(self).contains_name(user_name@)
                &&& final(self).cred_of(user_name@).user.id == old(self).next_id()
                &&& final(self).cred_of(user_name@).user.name@ == user_name@
                &&& final(self).next_id() == old(self).next_id() + 1
                &&& final(self).recs().len() == old(self).recs().len() + 1
                &&& (forall|n: Seq<char>|
                    n != user_name@ ==> (final(self).contains_name(n) <==> old(
                        self,
                    ).contains_name(n)))
                &&& (forall|n: Seq<char>|
                    n != user_name@ && old(self).contains_name(n) ==> final(self).cred_of(n)
                        == old(self).cred_of(n))
                &&& (forall|id: u64|
                    final(self).contains_id(id) <==> old(self).contains_id(id) || id == old(
                        self,
                    ).next_id())
            },
    {
        if self.is_present(user_name) {
            return Err(VaultError::Conflict);
        }
        let salt = generate_salt();
        let hash = crate::crypto::derive(password, salt.as_str());
        let id = self.next_id;
        let rec = CredRecord {
            user: User { id, name: user_name.to_owned() },
            pwd_salt: salt,
            pwd_hash: hash,
        };
        self.users.push(rec);
        self.next_id = self.next_id + 1;
        proof {
            let n = self.recs().len() - 1;
            assert(self.recs()[n].user.name@ == user_name@);
            assert forall|i: int| 0 <= i < n implies self.recs()[i] == old(self).recs()[i] by {}
            assert forall|i: int| 0 <= i < n implies self.recs()[i].user.name@ != user_name@ by {
                if self.recs()[i].user.name@ == user_name@ {
                    assert(old(self).recs()[i].user.name@ == user_name@);
                    assert(old(self).contains_name(user_name@));
                }
            }
            assert(self.wf());
            self.lemma_cred_at(user_name@, n);
            assert forall|nm: Seq<char>|
                nm != user_name@ && old(self).contains_name(nm) implies self.cred_of(nm) == old(
                self,
            ).cred_of(nm) by {
                let i = choose|i: int|
                    0 <= i < old(self).recs().len() && old(self).recs()[i].user.name@ == nm;
                old(self).lemma_cred_at(nm, i);
                self.lemma_cred_at(nm, i);
            }
            assert forall|nm: Seq<char>|
                nm != user_name@ && self.contains_name(nm) implies old(self).contains_name(
                nm,
            ) by {
                let i = choose|i: int|
                    0 <= i < self.recs().len() && self.recs()[i].user.name@ == nm;
                assert(i < n);
                assert(old(self).recs()[i].user.name@ == nm);
            }
            assert forall|idv: u64| self.contains_id(idv) implies old(self).contains_id(idv)
                || idv == old(self).next_id() by {
                let i = choose|i: int|
                    0 <= i < self.recs().len() && self.recs()[i].user.id == idv;
                if i < n {
                    assert(old(self).recs()[i].user.id == idv);
                }
            }
            assert forall|idv: u64| old(self).contains_id(idv) implies self.contains_id(idv) by {
                let i = choose|i: int|
                    0 <= i < old(self).recs().len() && old(self).recs()[i].user.id == idv;
                assert(self.recs()[i].user.id == idv);
            }
            assert(self.contains_id(old(self).next_id())) by {
                assert(self.recs()[n].user.id == old(self).next_id());
            }
        }
        Ok(id)
    }

    /// Whether a username/password pair matches a stored credential. The
    /// supplied password is hashed under the stored salt and the hashes are
    /// compared; the stored password hash is never revealed.
    pub fn validate_user(&self, user_name: &str, password: &str) -> (r: bool)
        requires
            self.wf(),
        ensures
            r == self.validates(user_name@, password@),
    {
        let n = self.users.len();
        let mut i: usize = 0;
        while i < n
            invariant
                self.wf(),
                n == self.recs().len(),
                i <= n,
                forall|j: int| 0 <= j < i ==> self.recs()[j].user.name@ != user_name@,
            decreases n - i,
        {
            if str_eq(self.users[i].user.name.as_str(), user_name) {
                let hash = crate::crypto::derive(password, self.users[i].pwd_salt.as_str());
                let matches_stored = self.users[i].pwd_hash == hash;
                proof {
                    self.lemma_cred_at(user_name@, i as int);
                    if matches_stored {
                        assert(self.recs()[i as int].pwd_hash@ =~= hash@);
                    }
                }
                return matches_stored;
            }
            i += 1;
        }
        false
    }

    /// The id registered under a username, or `NotFound`.
    pub fn get_user_id(&self, user_name: &str) -> (r: Result<u64, VaultError>)
        requires
            self.wf(),
        ensures
            self.contains_name(user_name@) ==> r == Ok::<u64, VaultError>(
                self.cred_of(user_name@).user.id,
            ),
            !self.contains_name(user_name@) ==> r == Err::<u64, VaultError>(VaultError::NotFound),
    {
        let n = self.users.len();
        let mut i: usize = 0;
        while i < n
            invariant
                self.wf(),
                n == self.recs().len(),
                i <= n,
                forall|j: int| 0 <= j < i ==> self.recs()[j].user.name@ != user_name@,
            decreases n - i,
        {
            if str_eq(self.users[i].user.name.as_str(), user_name) {
                proof {
                    self.lemma_cred_at(user_name@, i as int);
                }
                return Ok(self.users[i].user.id);
            }
            i += 1;
        }
        Err(VaultError::NotFound)
    }

    /// Whether any registered user carries this id. Used as the defensive
    /// join when a session is validated.
    pub fn contains_user_id(&self, id: u64) -> (r: bool)
        ensures
            r == self.contains_id(id),
    {
        let n = self.users.len();
        let mut i: usize = 0;
        while i < n
            invariant
                n == self.recs().len(),
                i <= n,
                forall|j: int| 0 <= j < i ==> self.recs()[j].user.id != id,
            decreases n - i,
        {
            if self.users[i].user.id == id {
                return true;
            }
            i += 1;
        }
        false
    }

    /// Removes a registered user. An administrative operation: the normal
    /// flow never deletes users.
    pub fn delete_user(&mut self, user_name: &str) -> (r: Result<(), VaultError>)
        requires
            old(self).wf(),
        ensures
            final(self).wf(),
            final(self).next_id() == old(self).next_id(),
            !old(self).contains_name(user_name@) ==> r == Err::<(), VaultError>(
                VaultError::NotFound,
            ) && *final(self) == *old(self),
            old(self).contains_name(user_name@) ==> {
                &&& r == Ok::<(), VaultError>(())
                &&& !final(self).contains_name(user_name@)
                &&& (forall|n: Seq<char>|
                    n != user_name@ ==> (final(self).contains_name(n) <==> old(
                        self,
                    ).contains_name(n)))
                &&& (forall|n: Seq<char>|
                    n != user_name@ && old(self).contains_name(n) ==> final(self).cred_of(n)
                        == old(self).cred_of(n))
            },
    {
        let n = self.users.len();
        let mut i: usize = 0;
        while i < n
            invariant
                old(self).wf(),
                *self == *old(self),
                n == self.recs().len(),
                i <= n,
                forall|j: int| 0 <= j < i ==> self.recs()[j].user.name@ != user_name@,
            decreases n - i,
        {
            if str_eq(self.users[i].user.name.as_str(), user_name) {
                proof {
                    old(self).lemma_cred_at(user_name@, i as int);
                }
                self.users.remove(i);
                proof {
                    let old_recs = old(self).recs();
                    assert forall|nm: Seq<char>|
                        nm != user_name@ && old(self).contains_name(nm) implies self.contains_name(
                        nm,
                    ) && self.cred_of(nm) == old(self).cred_of(nm) by {
                        let k = choose|k: int|
                            0 <= k < old_recs.len() && old_recs[k].user.name@ == nm;
                        old(self).lemma_cred_at(nm, k);
                        if k < i {
                            assert(self.recs()[k] == old_recs[k]);
                            self.lemma_cred_at(nm, k);
                        } else {
                            assert(k > i);
                            assert(self.recs()[k - 1] == old_recs[k]);
                            self.lemma_cred_at(nm, k - 1);
                        }
                    }
                    assert forall|nm: Seq<char>| self.contains_name(nm) implies old(
                        self,
                    ).contains_name(nm) by {
                        let k = choose|k: int|
                            0 <= k < self.recs().len() && self.recs()[k].user.name@ == nm;
                        if k < i {
                            assert(old_recs[k].user.name@ == nm);
                        } else {
                            assert(old_recs[k + 1].user.name@ == nm);
                        }
                    }
                }
                return Ok(());
            }
            i += 1;
        }
        Err(VaultError::NotFound)
    }
}

} // verus!
