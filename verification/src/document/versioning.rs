//! The registry of tracked documents that each folder keeps: versions,
//! finality, deadlines and threshold signatures.

use vstd::prelude::*;
use crate::strmap::StrMap;
use crate::support::clock::now_millis;

verus! {

/// Where a document stands.
#[derive(Debug, PartialEq, Eq)]
pub enum DocumentStatus {
    Draft,
    Final,
    Forked { from: String },
}

impl Clone for DocumentStatus {
    fn clone(&self) -> (c: Self)
        ensures
            c == *self,
    {
        match self {
            DocumentStatus::Draft => DocumentStatus::Draft,
            DocumentStatus::Final => DocumentStatus::Final,
            DocumentStatus::Forked { from } => DocumentStatus::Forked { from: from.clone() },
        }
    }
}

/// What the registry records of a document. Times are milliseconds since
/// the Unix epoch.
#[derive(Debug)]
pub struct DocumentMeta {
    pub path: String,
    pub version: u64,
    pub status: DocumentStatus,
    pub content_hash: String,
    pub created_at: i64,
    pub updated_at: i64,
    pub deadline: Option<i64>,
    pub created_by: String,
    pub last_updated_by: String,
    pub threshold_signature: Option<Vec<u8>>,
    pub group_public_key: Option<Vec<u8>>,
    pub frost_threshold: Option<u16>,
    pub frost_total: Option<u16>,
}

impl Clone for DocumentMeta {
    fn clone(&self) -> (c: Self)
        ensures
            c.path == self.path,
            c.version == self.version,
            c.status == self.status,
            c.content_hash == self.content_hash,
            c.created_at == self.created_at,
            c.updated_at == self.updated_at,
            c.deadline == self.deadline,
            c.created_by == self.created_by,
            c.last_updated_by == self.last_updated_by,
            c.threshold_signature.is_some() == self.threshold_signature.is_some(),
            c.threshold_signature matches Some(s) ==> s@ == self.threshold_signature->0@,
            c.group_public_key.is_some() == self.group_public_key.is_some(),
            c.group_public_key matches Some(k) ==> k@ == self.group_public_key->0@,
            c.frost_threshold == self.frost_threshold,
            c.frost_total == self.frost_total,
    {
        let threshold_signature = match &self.threshold_signature {
            Some(s) => Some(copy_bytes(s)),
            None => None,
        };
        let group_public_key = match &self.group_public_key {
            Some(k) => Some(copy_bytes(k)),
            None => None,
        };
        DocumentMeta {
            path: self.path.clone(),
            version: self.version,
            status: self.status.clone(),
            content_hash: self.content_hash.clone(),
            created_at: self.created_at,
            updated_at: self.updated_at,
            deadline: self.deadline,
            created_by: self.created_by.clone(),
            last_updated_by: self.last_updated_by.clone(),
            threshold_signature,
            group_public_key,
            frost_threshold: self.frost_threshold,
            frost_total: self.frost_total,
        }
    }
}

/// A copy of a byte string.
pub fn copy_bytes(v: &Vec<u8>) -> (c: Vec<u8>)
    ensures
        c@ == v@,
{
    let c = v.clone();
    assert(c@ =~= v@);
    c
}

/// Whether a document in `status` is final.
pub open spec fn is_final_status(status: DocumentStatus) -> bool {
    status matches DocumentStatus::Final
}

/// Whether a draft has reached its deadline at time `now`.
pub open spec fn is_due(meta: DocumentMeta, now: i64) -> bool {
    meta.status matches DocumentStatus::Draft && meta.deadline matches Some(d) && now >= d
}

/// Whether `after` is `before` with every draft due at `now` made final.
pub open spec fn deadlines_checked(
    before: Map<Seq<char>, DocumentMeta>,
    after: Map<Seq<char>, DocumentMeta>,
    now: i64,
) -> bool {
    &&& after.dom() == before.dom()
    &&& forall|k: Seq<char>|
        #[trigger] after.contains_key(k) ==> after[k] == if is_due(before[k], now) {
            DocumentMeta { status: DocumentStatus::Final, ..before[k] }
        } else {
            before[k]
        }
}

impl DocumentMeta {
    /// A new draft at version 1, created and last updated now by
    /// `created_by`, with no deadline and no signature.
    pub fn new(path: &str, content_hash: &str, created_by: &str) -> (m: Self)
        ensures
            m.path@ == path@,
            m.version == 1,
            m.status == DocumentStatus::Draft,
            m.content_hash@ == content_hash@,
            m.created_at == m.updated_at,
            m.deadline is None,
            m.created_by@ == created_by@,
            m.last_updated_by@ == created_by@,
            m.threshold_signature is None,
            m.group_public_key is None,
            m.frost_threshold is None,
            m.frost_total is None,
    {
        let now = now_millis();
        DocumentMeta {
            path: path.to_string(),
            version: 1,
            status: DocumentStatus::Draft,
            content_hash: content_hash.to_string(),
            created_at: now,
            updated_at: now,
            deadline: None,
            created_by: created_by.to_string(),
            last_updated_by: created_by.to_string(),
            threshold_signature: None,
            group_public_key: None,
            frost_threshold: None,
            frost_total: None,
        }
    }

    /// The same document with a deadline.
    pub fn with_deadline(self, deadline: i64) -> (m: Self)
        ensures
            m == (DocumentMeta { deadline: Some(deadline), ..self }),
    {
        let mut m = self;
        m.deadline = Some(deadline);
        m
    }

    /// Whether the document is final.
    pub fn is_final(&self) -> (b: bool)
        ensures
            b == is_final_status(self.status),
    {
        match self.status {
            DocumentStatus::Final => true,
            _ => false,
        }
    }
}

/// The tracked documents of one folder, keyed by path.
#[derive(Debug)]
pub struct FolderRegistry {
    pub documents: StrMap<DocumentMeta>,
}

impl Default for FolderRegistry {
    fn default() -> (r: Self)
        ensures
            r.wf(),
            r.documents@.is_empty(),
    {
        FolderRegistry { documents: StrMap::new() }
    }
}

impl FolderRegistry {
    /// Well-formedness: each path once.
    pub open spec fn wf(self) -> bool {
        self.documents.wf()
    }

    /// Records `meta` under its path, replacing what was recorded there.
    pub fn register_document(&mut self, meta: DocumentMeta)
        requires
            old(self).wf(),
        ensures
            final(self).wf(),
            final(self).documents@ == old(self).documents@.insert(meta.path@, meta),
    {
        let key = meta.path.clone();
        self.documents.insert(key, meta);
    }

    /// What is recorded of the document at `filename`, if anything.
    pub fn get_document(&self, filename: &str) -> (r: Option<&DocumentMeta>)
        requires
            self.wf(),
        ensures
            match r {
                Some(m) => self.documents@.contains_key(filename@) && *m == self.documents@[filename@],
                None => !self.documents@.contains_key(filename@),
            },
    {
        self.documents.get(filename)
    }

    /// Records a new version of the document at `filename`, updated now by
    /// `updater` to content with hash `new_hash`; answers the new version
    /// number, or nothing for an untracked document.
    pub fn increment_version(&mut self, filename: &str, updater: &str, new_hash: &str) -> (r: Option<u64>)
        requires
            old(self).wf(),
            old(self).documents@.contains_key(filename@) ==> old(self).documents@[filename@].version < u64::MAX,
        ensures
            final(self).wf(),
            !old(self).documents@.contains_key(filename@) <==> r is None,
            r is None ==> final(self).documents@ == old(self).documents@,
            r matches Some(v) ==> {
                let before = old(self).documents@[filename@];
                let after = final(self).documents@[filename@];
                &&& v == before.version + 1
                &&& final(self).documents@ == old(self).documents@.insert(filename@, after)
                &&& after == (DocumentMeta {
                    version: after.version,
                    updated_at: after.updated_at,
                    last_updated_by: after.last_updated_by,
                    content_hash: after.content_hash,
                    ..before
                })
                &&& after.version == v
                &&& after.last_updated_by@ == updater@
                &&& after.content_hash@ == new_hash@
            },
    {
        match self.documents.get_mut(filename) {
            Some(meta) => {
                meta.version = meta.version + 1;
                meta.updated_at = now_millis();
                meta.last_updated_by = updater.to_string();
                meta.content_hash = new_hash.to_string();
                Some(meta.version)
            },
            None => None,
        }
    }

    /// Marks the document at `filename` final; answers whether it is tracked.
    pub fn mark_final(&mut self, filename: &str) -> (found: bool)
        requires
            old(self).wf(),
        ensures
            final(self).wf(),
            found == old(self).documents@.contains_key(filename@),
            !found ==> final(self).documents@ == old(self).documents@,
            found ==> {
                let before = old(self).documents@[filename@];
                let after = final(self).documents@[filename@];
                &&& final(self).documents@ == old(self).documents@.insert(filename@, after)
                &&& after == (DocumentMeta { status: DocumentStatus::Final, updated_at: after.updated_at, ..before })
            },
    {
        match self.documents.get_mut(filename) {
            Some(meta) => {
                meta.status = DocumentStatus::Final;
                meta.updated_at = now_millis();
                true
            },
            None => false,
        }
    }

    /// Whether the document at `filename` may be edited: it is not final
    /// (an untracked document is not refused here).
    pub fn is_editable(&self, filename: &str) -> (b: bool)
        requires
            self.wf(),
        ensures
            b == !(self.documents@.contains_key(filename@) && is_final_status(
                self.documents@[filename@].status,
            )),
    {
        match self.documents.get(filename) {
            Some(meta) => !meta.is_final(),
            None => true,
        }
    }

    /// Records on the document at `filename` the threshold signature of its
    /// content and the key and quorum it was made with; answers whether the
    /// document is tracked.
    pub fn set_threshold_signature(
        &mut self,
        filename: &str,
        signature: Vec<u8>,
        group_public_key: Vec<u8>,
        threshold: u16,
        total: u16,
    ) -> (found: bool)
        requires
            old(self).wf(),
        ensures
            final(self).wf(),
            found == old(self).documents@.contains_key(filename@),
            !found ==> final(self).documents@ == old(self).documents@,
            found ==> final(self).documents@ == old(self).documents@.insert(
                filename@,
                (DocumentMeta {
                    threshold_signature: Some(signature),
                    group_public_key: Some(group_public_key),
                    frost_threshold: Some(threshold),
                    frost_total: Some(total),
                    ..old(self).documents@[filename@]
                }),
            ),
    {
        match self.documents.get_mut(filename) {
            Some(meta) => {
                meta.threshold_signature = Some(signature);
                meta.group_public_key = Some(group_public_key);
                meta.frost_threshold = Some(threshold);
                meta.frost_total = Some(total);
                true
            },
            None => false,
        }
    }

    /// Stops tracking the document at `filename`; answers what was recorded
    /// of it, if anything.
    pub fn remove_document(&mut self, filename: &str) -> (r: Option<DocumentMeta>)
        requires
            old(self).wf(),
        ensures
            final(self).wf(),
            final(self).documents@ == old(self).documents@.remove(filename@),
            r == old(self).documents@.get(filename@),
    {
        self.documents.remove(filename)
    }

    /// Makes final every draft whose deadline is at or before `now`.
    pub fn check_deadlines_at(&mut self, now: i64)
        requires
            old(self).wf(),
        ensures
            final(self).wf(),
            deadlines_checked(old(self).documents@, final(self).documents@, now),
    {
        let ghost before = self.documents@;
        proof {
            self.documents.lemma_shape();
        }
        let n = self.documents.entry_count();
        let mut i: usize = 0;
        while i < n
            invariant
                self.wf(),
                n == self.documents.key_order().len(),
                self.documents.key_order().no_duplicates(),
                i <= n,
                self.documents@.dom() == before.dom(),
                forall|j: int|
                    #![trigger self.documents.key_order()[j]]
                    0 <= j < n ==> before.contains_key(self.documents.key_order()[j]),
                forall|k: Seq<char>|
                    #[trigger] self.documents@.contains_key(k) ==> self.documents@[k] == if is_due(before[k], now)
                        && self.documents.key_order().take(i as int).contains(k) {
                        DocumentMeta { status: DocumentStatus::Final, ..before[k] }
                    } else {
                        before[k]
                    },
            decreases n - i,
        {
            let key = self.documents.key_at(i).clone();
            let ghost ks = self.documents.key_order();
            proof {
                assert(!ks.take(i as int).contains(ks[i as int]));
                assert(before.contains_key(ks[i as int]));
            }
            match self.documents.get_mut(key.as_str()) {
                Some(meta) => {
                    let due = match meta.status {
                        DocumentStatus::Draft => match meta.deadline {
                            Some(d) => now >= d,
                            None => false,
                        },
                        _ => false,
                    };
                    if due {
                        meta.status = DocumentStatus::Final;
                    }
                },
                None => {},
            }
            proof {
                assert forall|x: Seq<char>| #[trigger] self.documents@.contains_key(x) implies self.documents@[x]
                    == if is_due(before[x], now) && ks.take(i + 1).contains(x) {
                    DocumentMeta { status: DocumentStatus::Final, ..before[x] }
                } else {
                    before[x]
                } by {
                    if x != ks[i as int] {
                        if ks.take(i + 1).contains(x) {
                            let j = choose|j: int| 0 <= j < i + 1 && #[trigger] ks.take(i + 1)[j] == x;
                            assert(ks.take(i as int)[j] == x);
                        }
                        if ks.take(i as int).contains(x) {
                            let j = choose|j: int| 0 <= j < i && #[trigger] ks.take(i as int)[j] == x;
                            assert(ks.take(i + 1)[j] == x);
                        }
                    } else {
                        assert(ks.take(i + 1)[i as int] == x);
                    }
                }
                assert(self.documents@.dom() =~= before.dom());
            }
            i = i + 1;
        }
        proof {
            let ks = self.documents.key_order();
            assert(ks.take(n as int) =~= ks);
            assert forall|k: Seq<char>| #[trigger] self.documents@.contains_key(k) implies ks.contains(k) by {
                self.documents.lemma_shape();
                assert(self.documents@.dom() == ks.to_set());
            }
        }
    }

    /// Makes final every draft whose deadline has passed, by the clock.
    pub fn check_deadlines(&mut self)
        requires
            old(self).wf(),
        ensures
            final(self).wf(),
            final(self).documents@.dom() == old(self).documents@.dom(),
            exists|now: i64| #[trigger] deadlines_checked(old(self).documents@, final(self).documents@, now),
    {
        let now = now_millis();
        self.check_deadlines_at(now);
    }

    /// The paths of the tracked documents.
    pub fn tracked_files(&self) -> (r: Vec<&str>)
        ensures
            r@.map_values(|s: &str| s@) == self.documents.key_order(),
    {
        let n = self.documents.entry_count();
        let mut r: Vec<&str> = Vec::new();
        let mut i: usize = 0;
        while i < n
            invariant
                n == self.documents.key_order().len(),
                i <= n,
                r@.map_values(|s: &str| s@) == self.documents.key_order().take(i as int),
            decreases n - i,
        {
            let k = self.documents.key_at(i).as_str();
            let ghost prev = r@;
            r.push(k);
            assert(r@ == prev.push(k));
            assert(r@.map_values(|s: &str| s@) =~= prev.map_values(|s: &str| s@).push(k@));
            assert(self.documents.key_order().take(i + 1) =~= self.documents.key_order().take(i as int).push(k@));
            i = i + 1;
        }
        assert(self.documents.key_order().take(n as int) =~= self.documents.key_order());
        r
    }
}

/// A draft never goes back: checking deadlines leaves final documents
/// final, and a due draft becomes final.
pub proof fn law_deadlines_only_finalize(before: DocumentMeta, now: i64)
    ensures
        is_final_status(before.status) ==> !is_due(before, now),
        is_due(before, now) ==> is_final_status(DocumentMeta { status: DocumentStatus::Final, ..before }.status),
{
}

} // verus!
