use vstd::prelude::*;

use crate::credentials::CredentialStore;
use crate::errors::VaultError;
use crate::randgen::random_u64;

verus! {

/// How long a session stays valid, in seconds: one hour, not sliding.
pub const SESSION_LIFETIME_SECS: u64 = 3600;

/// Whether session arithmetic at this time stays within `u64`: the runtime
/// form of the clock bound that issuing a session requires.
pub fn session_window_open(now: u64) -> (r: bool)
    ensures
        r == (now + SESSION_LIFETIME_SECS <= u64::MAX),
{
    now <= u64::MAX - SESSION_LIFETIME_SECS
}

/// A session: a random 64-bit bearer token bound to a user id, valid from
/// its creation until a fixed expiry. Never mutated once issued.
#[derive(Clone, Copy, PartialEq, Eq, Structural, Debug)]
pub struct Session {
    pub session_id: u64,
    pub user_id: u64,
    pub created_at: u64,
    pub expires_at: u64,
}

impl Session {
    /// Issues a session for an authenticated user: a fresh random token,
    /// created now, expiring one lifetime later.
    pub fn new(user_id: u64, now: u64) -> (s: Session)
        requires
            now + SESSION_LIFETIME_SECS <= u64::MAX,
        ensures
            s.user_id == user_id,
            s.created_at == now,
            s.expires_at == now + SESSION_LIFETIME_SECS,
    {
        let session_id = random_u64();
        Session { user_id, session_id, created_at: now, expires_at: now + SESSION_LIFETIME_SECS }
    }
}

/// Holds the authoritative session records, keyed by token.
pub struct SessionStore {
    sessions: Vec<Session>,
}

impl SessionStore {
    /// The stored records, for specification purposes.
    pub closed spec fn recs(self) -> Seq<Session> {
        self.sessions@
    }

    /// Tokens are unique.
    pub open spec fn wf(self) -> bool {
        forall|i: int, j: int|
            0 <= i < j < self.recs().len() ==> self.recs()[i].session_id
                != self.recs()[j].session_id
    }

    pub open spec fn has(self, session_id: u64) -> bool {
        exists|i: int| 0 <= i < self.recs().len() && self.recs()[i].session_id == session_id
    }

    /// The record stored under a token.
    pub open spec fn rec_of(self, session_id: u64) -> Session
        recommends
            self.has(session_id),
    {
        self.recs()[choose|i: int|
            0 <= i < self.recs().len() && self.recs()[i].session_id == session_id]
    }

    /// A token is accepted at a given time exactly when its record exists,
    /// its expiry has not passed, and the user it references still exists.
    pub open spec fn session_ok(
        self,
        session_id: u64,
        now: u64,
        creds: CredentialStore,
    ) -> bool {
        &&& self.has(session_id)
        &&& now <= self.rec_of(session_id).expires_at
        &&& creds.contains_id(self.rec_of(session_id).user_id)
    }

    /// With tokens unique, any index holding a token holds the record
    /// `rec_of` denotes.
    pub proof fn lemma_rec_at(self, session_id: u64, i: int)
        requires
            self.wf(),
            0 <= i < self.recs().len(),
            self.recs()[i].session_id == session_id,
        ensures
            self.has(session_id),
            self.rec_of(session_id) == self.recs()[i],
    {
        let j = choose|j: int|
            0 <= j < self.recs().len() && self.recs()[j].session_id == session_id;
        if i < j {
            assert(self.recs()[i].session_id != self.recs()[j].session_id);
        } else if j < i {
            assert(self.recs()[j].session_id != self.recs()[i].session_id);
        }
    }

    /// An empty store.
    pub fn new() -> (r: SessionStore)
        ensures
            r.wf(),
            r.recs().len() == 0,
            forall|sid: u64| !r.has(sid),
    {
        SessionStore { sessions: Vec::new() }
    }

    /// Persists a session record, replacing any record that already carries
    /// the same token.
    pub fn session_serialize(&mut self, ssn: Session)
        requires
            old(self).wf(),
        ensures
            final(self).wf(),
            final(self).has(ssn.session_id),
            final(self).rec_of(ssn.session_id) == ssn,
            forall|sid: u64|
                sid != ssn.session_id ==> (final(self).has(sid) <==> old(self).has(sid)),
            forall|sid: u64|
                sid != ssn.session_id && old(self).has(sid) ==> final(self).rec_of(sid) == old(
                    self,
                ).rec_of(sid),
    {
        let n = self.sessions.len();
        let mut i: usize = 0;
        while i < n
            invariant
                old(self).wf(),
                *self == *old(self),
                n == self.recs().len(),
                i <= n,
                forall|j: int| 0 <= j < i ==> self.recs()[j].session_id != ssn.session_id,
            decreases n - i,
        {
            if self.sessions[i].session_id == ssn.session_id {
                self.sessions[i] = ssn;
                proof {
                    assert(self.recs() =~= old(self).recs().update(i as int, ssn));
                    self.lemma_rec_at(ssn.session_id, i as int);
                    assert forall|sid: u64|
                        sid != ssn.session_id && old(self).has(sid) implies self.has(sid)
                        && self.rec_of(sid) == old(self).rec_of(sid) by {
                        let k = choose|k: int|
                            0 <= k < old(self).recs().len() && old(self).recs()[k].session_id
                                == sid;
                        old(self).lemma_rec_at(sid, k);
                        assert(self.recs()[k] == old(self).recs()[k]);
                        self.lemma_rec_at(sid, k);
                    }
                    assert forall|sid: u64|
                        sid != ssn.session_id && self.has(sid) implies old(self).has(sid) by {
                        let k = choose|k: int|
                            0 <= k < self.recs().len() && self.recs()[k].session_id == sid;
                        assert(old(self).recs()[k].session_id == sid);
                    }
                }
                return ;
            }
            i += 1;
        }
        self.sessions.push(ssn);
        proof {
            let m = self.recs().len() - 1;
            assert(self.recs()[m] == ssn);
            assert forall|j: int| 0 <= j < m implies self.recs()[j] == old(self).recs()[j] by {}
            assert(self.wf());
            self.lemma_rec_at(ssn.session_id, m);
            assert forall|sid: u64|
                sid != ssn.session_id && old(self).has(sid) implies self.has(sid)
                && self.rec_of(sid) == old(self).rec_of(sid) by {
                let k = choose|k: int|
                    0 <= k < old(self).recs().len() && old(self).recs()[k].session_id == sid;
                old(self).lemma_rec_at(sid, k);
                self.lemma_rec_at(sid, k);
            }
            assert forall|sid: u64|
                sid != ssn.session_id && self.has(sid) implies old(self).has(sid) by {
                let k = choose|k: int|
                    0 <= k < self.recs().len() && self.recs()[k].session_id == sid;
                assert(k < m);
                assert(old(self).recs()[k].session_id == sid);
            }
        }
    }

    /// Resolves a token to the user id it was issued for. Fails with
    /// `Unauthorized` when the token is unknown, the session has expired,
    /// or the referenced user no longer exists — deliberately
    /// indistinguishable outcomes.
    pub fn session_valid(&self, session_id: u64, now: u64, creds: &CredentialStore) -> (r: Result<
        u64,
        VaultError,
    >)
        requires
            self.wf(),
        ensures
            self.session_ok(session_id, now, *creds) ==> r == Ok::<u64, VaultError>(
                self.rec_of(session_id).user_id,
            ),
            !self.session_ok(session_id, now, *creds) ==> r == Err::<u64, VaultError>(
                VaultError::Unauthorized,
            ),
    {
        let n = self.sessions.len();
        let mut i: usize = 0;
        while i < n
            invariant
                self.wf(),
                n == self.recs().len(),
                i <= n,
                forall|j: int| 0 <= j < i ==> self.recs()[j].session_id != session_id,
            decreases n - i,
        {
            if self.sessions[i].session_id == session_id {
                proof {
                    self.lemma_rec_at(session_id, i as int);
                }
                let rec = self.sessions[i];
                if now > rec.expires_at {
                    return Err(VaultError::Unauthorized);
                }
                if !creds.contains_user_id(rec.user_id) {
                    return Err(VaultError::Unauthorized);
                }
                return Ok(rec.user_id);
            }
            i += 1;
        }
        Err(VaultError::Unauthorized)
    }
}

/// A session accepted at some time is accepted at exactly the times up to
/// one lifetime after its creation: it never expires before
/// `created_at + SESSION_LIFETIME_SECS`, and is refused at every later
/// time.
pub proof fn lemma_session_expiry(
    store: SessionStore,
    creds: CredentialStore,
    session_id: u64,
    issued_at: u64,
    now: u64,
)
    requires
        store.wf(),
        store.has(session_id),
        store.rec_of(session_id).created_at == issued_at,
        store.rec_of(session_id).expires_at == issued_at + SESSION_LIFETIME_SECS,
        creds.contains_id(store.rec_of(session_id).user_id),
    ensures
        store.session_ok(session_id, now, creds) <==> now <= issued_at + SESSION_LIFETIME_SECS,
{
}

} // verus!
