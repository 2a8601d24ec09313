use vstd::prelude::*;

use crate::crypto::{NONCE_LEN, TAG_LEN};
use crate::hexcodec::{canonical_hex, hex_decode_spec};
use crate::path_guard::is_valid_name;
use crate::strutil::str_eq;
use crate::types::{DatabaseRow, FileAsset};

verus! {

/// One stored file: its identity, the salt its key was derived with, and
/// the hex-encoded sealed payload. Record and blob live and die together,
/// so an orphaned blob cannot arise.
pub struct StoredFile {
    pub asset: FileAsset,
    pub salt: String,
    pub blob: String,
}

/// The per-user file storage: records keyed by `(owner_id, file_name)`.
/// A user may not have two records with the same name; two users may reuse
/// a name independently.
pub struct FileStore {
    files: Vec<StoredFile>,
    next_id: u64,
}

impl FileStore {
    /// The stored records, for specification purposes.
    pub closed spec fn recs(self) -> Seq<StoredFile> {
        self.files@
    }

    /// The id the next stored file will receive.
    pub closed spec fn next_id(self) -> u64 {
        self.next_id
    }

    /// Every key `(owner_id, file_name)` occurs at most once, every stored
    /// name has passed the path guard, every blob is canonical lowercase
    /// hex long enough to hold a nonce and a tag, and ids lie below the
    /// counter.
    pub open spec fn wf(self) -> bool {
        &&& (forall|i: int, j: int|
            0 <= i < j < self.recs().len() ==> !(self.recs()[i].asset.owner_id
                == self.recs()[j].asset.owner_id && self.recs()[i].asset.name@
                == self.recs()[j].asset.name@))
        &&& (forall|i: int| 0 <= i < self.recs().len() ==> is_valid_name(self.recs()[i].asset.name@))
        &&& (forall|i: int|
            0 <= i < self.recs().len() ==> canonical_hex(self.recs()[i].blob@) && hex_decode_spec(
                self.recs()[i].blob@,
            ).len() >= NONCE_LEN + TAG_LEN)
        &&& (forall|i: int| 0 <= i < self.recs().len() ==> self.recs()[i].asset.id < self.next_id())
    }

    /// Whether a further record can still draw a fresh id.
    pub open spec fn can_insert(self) -> bool {
        self.next_id() < u64::MAX
    }

    pub open spec fn has_file(self, owner_id: u64, name: Seq<char>) -> bool {
        exists|i: int|
            0 <= i < self.recs().len() && self.recs()[i].asset.owner_id == owner_id
                && self.recs()[i].asset.name@ == name
    }

    /// The record stored under a key.
    pub open spec fn file_of(self, owner_id: u64, name: Seq<char>) -> StoredFile
        recommends
            self.has_file(owner_id, name),
    {
        self.recs()[choose|i: int|
            0 <= i < self.recs().len() && self.recs()[i].asset.owner_id == owner_id
                && self.recs()[i].asset.name@ == name]
    }

    /// With keys unique, any index holding a key holds the record `file_of`
    /// denotes.
    pub proof fn lemma_file_at(self, owner_id: u64, name: Seq<char>, i: int)
        requires
            self.wf(),
            0 <= i < self.recs().len(),
            self.recs()[i].asset.owner_id == owner_id,
            self.recs()[i].asset.name@ == name,
        ensures
            self.has_file(owner_id, name),
            self.file_of(owner_id, name) == self.recs()[i],
    {
        let j = choose|j: int|
            0 <= j < self.recs().len() && self.recs()[j].asset.owner_id == owner_id
                && self.recs()[j].asset.name@ == name;
        if i < j {
            assert(!(self.recs()[i].asset.owner_id == self.recs()[j].asset.owner_id
                && self.recs()[i].asset.name@ == self.recs()[j].asset.name@));
        } else if j < i {
            assert(!(self.recs()[j].asset.owner_id == self.recs()[i].asset.owner_id
                && self.recs()[j].asset.name@ == self.recs()[i].asset.name@));
        }
    }

    /// An empty store.
    pub fn new() -> (r: FileStore)
        ensures
            r.wf(),
            r.recs().len() == 0,
            r.next_id() == 0,
            r.can_insert(),
            forall|owner_id: u64, name: Seq<char>| !r.has_file(owner_id, name),
    {
        FileStore { files: Vec::new(), next_id: 0 }
    }

    /// Whether a further record can still draw a fresh id: the runtime
    /// form of `can_insert`, for callers outside the proof.
    pub fn has_capacity(&self) -> (r: bool)
        ensures
            r == self.can_insert(),
    {
        self.next_id < u64::MAX
    }

    /// Stores a record and its blob as one unit, replacing whatever the
    /// same `(owner_id, file_name)` held before. Every other key is left
    /// untouched, so a re-upload leaves exactly one record for its key.
    #[verifier::loop_isolation(false)]
    pub fn insert(
        &mut self,
        owner_id: u64,
        file_name: String,
        salt: String,
        blob: String,
    ) -> (asset: FileAsset)
        requires
            old(self).wf(),
            old(self).can_insert(),
            is_valid_name(file_name@),
            canonical_hex(blob@),
            hex_decode_spec(blob@).len() >= NONCE_LEN + TAG_LEN,
        ensures
            final(self).wf(),
            final(self).has_file(owner_id, file_name@),
            final(self).file_of(owner_id, file_name@) == (StoredFile {
                asset: asset,
                salt: salt,
                blob: blob,
            }),
            asset.owner_id == owner_id,
            asset.name@ == file_name@,
            asset.id == old(self).next_id(),
            final(self).next_id() == old(self).next_id() + 1,
            forall|o: u64, n: Seq<char>|
                !(o == owner_id && n == file_name@) ==> (final(self).has_file(o, n) <==> old(
                    self,
                ).has_file(o, n)),

            forall|o: u64, n: Seq<char>|
                !(o == owner_id && n == file_name@) && old(self).has_file(o, n) ==> final(self).file_of(o, n) == old(self).file_of(o, n),
    {
        let id = self.next_id;
        let rec = StoredFile {
            asset: FileAsset { id, name: file_name, owner_id },
            salt,
            blob,
        };
        let ghost rec_view = rec;
        let n = self.files.len();
        let mut i: usize = 0;
        while i < n
            invariant
                old(self).wf(),
                *self == *old(self),
                n == self.recs().len(),
                i <= n,
                forall|j: int|
                    0 <= j < i ==> !(self.recs()[j].asset.owner_id == owner_id
                        && self.recs()[j].asset.name@ == rec_view.asset.name@),
                rec == rec_view,
            decreases n - i,
        {
            let same_owner = self.files[i].asset.owner_id == owner_id;
            if same_owner && str_eq(self.files[i].asset.name.as_str(), rec.asset.name.as_str()) {
                self.files[i] = rec;
                self.next_id = self.next_id + 1;
                proof {
                    assert(self.recs() =~= old(self).recs().update(i as int, rec_view));
                    assert(old(self).recs()[i as int].asset.owner_id == owner_id);
                    assert(old(self).recs()[i as int].asset.name@ == rec_view.asset.name@);
                    assert forall|p: int, q: int|
                        0 <= p < q < self.recs().len() implies !(self.recs()[p].asset.owner_id
                            == self.recs()[q].asset.owner_id && self.recs()[p].asset.name@
                            == self.recs()[q].asset.name@) by {
                        assert(!(old(self).recs()[p].asset.owner_id == old(
                            self,
                        ).recs()[q].asset.owner_id && old(self).recs()[p].asset.name@ == old(
                            self,
                        ).recs()[q].asset.name@));
                        if p == i as int {
                            assert(self.recs()[q] == old(self).recs()[q]);
                        } else if q == i as int {
                            assert(self.recs()[p] == old(self).recs()[p]);
                        }
                    }
                    assert(self.wf());
                    self.lemma_file_at(owner_id, rec_view.asset.name@, i as int);
                    self.lemma_insert_frame(*old(self), owner_id, rec_view.asset.name@, i as int);
                }
                return self.files[i].asset.clone_asset();
            }
            i += 1;
        }
        self.files.push(rec);
        self.next_id = self.next_id + 1;
        proof {
            let m = self.recs().len() - 1;
            assert(self.recs()[m] == rec_view);
            assert forall|j: int| 0 <= j < m implies self.recs()[j] == old(self).recs()[j] by {}
            assert(self.wf());
            self.lemma_file_at(owner_id, rec_view.asset.name@, m);
            self.lemma_insert_frame(*old(self), owner_id, rec_view.asset.name@, m);
        }
        let last = self.files.len() - 1;
        return self.files[last].asset.clone_asset();
    }

    /// After an update or append at index `i` that holds the key, every
    /// other key maps exactly as before.
    proof fn lemma_insert_frame(self, prev: FileStore, owner_id: u64, name: Seq<char>, i: int)
        requires
            prev.wf(),
            self.wf(),
            0 <= i < self.recs().len(),
            self.recs()[i].asset.owner_id == owner_id,
            self.recs()[i].asset.name@ == name,
            prev.recs().len() == self.recs().len() || prev.recs().len() + 1 == self.recs().len(),
            forall|j: int| 0 <= j < self.recs().len() && j != i ==> self.recs()[j] == prev.recs()[j],
            prev.recs().len() == self.recs().len() ==> prev.recs()[i].asset.owner_id == owner_id
                && prev.recs()[i].asset.name@ == name,
            prev.recs().len() + 1 == self.recs().len() ==> i == prev.recs().len(),
        ensures
            forall|o: u64, n: Seq<char>|
                !(o == owner_id && n == name) ==> (self.has_file(o, n) <==> prev.has_file(o, n)),
            forall|o: u64, n: Seq<char>|
                !(o == owner_id && n == name) && prev.has_file(o, n) ==> self.file_of(o, n)
                    == prev.file_of(o, n),
    {
        assert forall|o: u64, n: Seq<char>|
            !(o == owner_id && n == name) && prev.has_file(o, n) implies self.has_file(o, n)
            && self.file_of(o, n) == prev.file_of(o, n) by {
            let k = choose|k: int|
                0 <= k < prev.recs().len() && prev.recs()[k].asset.owner_id == o
                    && prev.recs()[k].asset.name@ == n;
            prev.lemma_file_at(o, n, k);
            assert(k != i);
            assert(self.recs()[k] == prev.recs()[k]);
            self.lemma_file_at(o, n, k);
        }
        assert forall|o: u64, n: Seq<char>|
            !(o == owner_id && n == name) && self.has_file(o, n) implies prev.has_file(o, n) by {
            let k = choose|k: int|
                0 <= k < self.recs().len() && self.recs()[k].asset.owner_id == o
                    && self.recs()[k].asset.name@ == n;
            assert(k != i);
            assert(prev.recs()[k].asset.owner_id == o && prev.recs()[k].asset.name@ == n);
        }
    }

    /// A well-formed store never holds two records for one key: any two
    /// indices carrying the same `(owner_id, file_name)` coincide. Together
    /// with `insert`'s contract this is what makes a re-upload leave exactly
    /// one record-and-blob pair for its key, reflecting the second upload.
    pub proof fn lemma_at_most_one_record(self, i: int, j: int)
        requires
            self.wf(),
            0 <= i < self.recs().len(),
            0 <= j < self.recs().len(),
            self.recs()[i].asset.owner_id == self.recs()[j].asset.owner_id,
            self.recs()[i].asset.name@ == self.recs()[j].asset.name@,
        ensures
            i == j,
    {
    }

    /// The metadata row stored for a key: the file name and its salt.
    pub fn metadata_row(&self, owner_id: u64, file_name: &str) -> (r: Option<DatabaseRow>)
        requires
            self.wf(),
        ensures
            self.has_file(owner_id, file_name@) ==> (r matches Some(row) && row.file_name@
                == self.file_of(owner_id, file_name@).asset.name@ && row.salt@ == self.file_of(
                owner_id,
                file_name@,
            ).salt@),
            !self.has_file(owner_id, file_name@) ==> r is None,
    {
        let n = self.files.len();
        let mut i: usize = 0;
        while i < n
            invariant
                self.wf(),
                n == self.recs().len(),
                i <= n,
                forall|j: int|
                    0 <= j < i ==> !(self.recs()[j].asset.owner_id == owner_id
                        && self.recs()[j].asset.name@ == file_name@),
            decreases n - i,
        {
            let same_owner = self.files[i].asset.owner_id == owner_id;
            if same_owner && str_eq(self.files[i].asset.name.as_str(), file_name) {
                proof {
                    self.lemma_file_at(owner_id, file_name@, i as int);
                }
                return Some(
                    DatabaseRow {
                        file_name: self.files[i].asset.name.clone(),
                        salt: self.files[i].salt.clone(),
                    },
                );
            }
            i += 1;
        }
        None
    }

    /// The stored blob for a key: the hex form of the sealed payload.
    pub fn blob_of(&self, owner_id: u64, file_name: &str) -> (r: Option<String>)
        requires
            self.wf(),
        ensures
            self.has_file(owner_id, file_name@) ==> (r matches Some(b) && b@ == self.file_of(
                owner_id,
                file_name@,
            ).blob@),
            !self.has_file(owner_id, file_name@) ==> r is None,
    {
        let n = self.files.len();
        let mut i: usize = 0;
        while i < n
            invariant
                self.wf(),
                n == self.recs().len(),
                i <= n,
                forall|j: int|
                    0 <= j < i ==> !(self.recs()[j].asset.owner_id == owner_id
                        && self.recs()[j].asset.name@ == file_name@),
            decreases n - i,
        {
            let same_owner = self.files[i].asset.owner_id == owner_id;
            if same_owner && str_eq(self.files[i].asset.name.as_str(), file_name) {
                proof {
                    self.lemma_file_at(owner_id, file_name@, i as int);
                }
                return Some(self.files[i].blob.clone());
            }
            i += 1;
        }
        None
    }
}

} // verus!
