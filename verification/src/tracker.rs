//! The metadata tracker: one access-tracking entry per stored artifact.
//! It owns `access_count` and `last_accessed` exclusively; a counted
//! access is a read-modify-write that increments the counter by exactly
//! one and stamps the access time.

use vstd::prelude::*;
use crate::records::{FileMetadata, FileMetadataView};
use crate::store::KeyedStore;

verus! {

/// The metadata entry an artifact starts with: no accesses yet, last
/// touched at its creation time, no tags.
pub open spec fn initial_metadata(id: Seq<char>, file_type: Seq<char>, now: u64) -> FileMetadataView {
    FileMetadataView {
        file_id: id,
        file_type: file_type,
        access_count: 0,
        last_accessed: now,
        tags: Seq::empty(),
    }
}

/// One counted access: the entry for `id`, if any, gets its counter
/// incremented by one and its access time set to `now`; everything else,
/// and a map without `id`, stays as it is.
pub open spec fn after_access(
    m: Map<Seq<char>, FileMetadataView>,
    id: Seq<char>,
    now: u64,
) -> Map<Seq<char>, FileMetadataView> {
    if m.contains_key(id) {
        m.insert(
            id,
            FileMetadataView {
                access_count: m[id].access_count + 1,
                last_accessed: now,
                ..m[id]
            },
        )
    } else {
        m
    }
}

/// A counted access moves no entry in or out of the map and touches
/// nothing but the counter and access time of the entry it names.
pub proof fn lemma_after_access_preserves(
    m: Map<Seq<char>, FileMetadataView>,
    id: Seq<char>,
    now: u64,
)
    ensures
        forall|k: Seq<char>| #[trigger]
            after_access(m, id, now).contains_key(k) == m.contains_key(k),
        forall|k: Seq<char>| #[trigger]
            m.contains_key(k) ==> after_access(m, id, now)[k].file_id == m[k].file_id
                && after_access(m, id, now)[k].file_type == m[k].file_type && after_access(
                m,
                id,
                now,
            )[k].tags == m[k].tags,
{
}

/// Maintains one metadata record per stored artifact.
pub struct MetadataTracker {
    pub entries: KeyedStore<FileMetadata>,
}

impl View for MetadataTracker {
    type V = Map<Seq<char>, FileMetadataView>;

    open spec fn view(&self) -> Map<Seq<char>, FileMetadataView> {
        self.entries@
    }
}

impl MetadataTracker {
    pub open spec fn wf(&self) -> bool {
        self.entries.wf()
    }

    pub fn new() -> (t: Self)
        ensures
            t.wf(),
            t@ == Map::<Seq<char>, FileMetadataView>::empty(),
    {
        MetadataTracker { entries: KeyedStore::new() }
    }

    /// Creates the initial entry for a newly stored artifact.
    pub fn create(&mut self, id: String, file_type: String, now: u64)
        requires
            old(self).wf(),
        ensures
            final(self).wf(),
            final(self)@ == old(self)@.insert(id@, initial_metadata(id@, file_type@, now)),
    {
        let entry = FileMetadata {
            file_id: id.clone(),
            file_type,
            access_count: 0,
            last_accessed: now,
            tags: Vec::new(),
        };
        proof {
            assert(entry@ =~= initial_metadata(id@, entry.file_type@, now));
        }
        self.entries.insert(id, entry);
    }

    /// Counts one access at time `now`. A missing entry is deliberately
    /// tolerated: the access is then not recorded and nothing changes.
    pub fn record_access(&mut self, id: &String, now: u64)
        requires
            old(self).wf(),
            old(self)@.contains_key(id@) ==> old(self)@[id@].access_count < u64::MAX,
        ensures
            final(self).wf(),
            final(self)@ == after_access(old(self)@, id@, now),
    {
        let found = match self.entries.get(id) {
            Some(entry) => {
                let mut updated = entry.clone();
                updated.access_count = updated.access_count + 1;
                updated.last_accessed = now;
                proof {
                    assert(updated@ =~= FileMetadataView {
                        access_count: old(self)@[id@].access_count + 1,
                        last_accessed: now,
                        ..old(self)@[id@]
                    });
                }
                Some(updated)
            },
            None => None,
        };
        match found {
            Some(updated) => {
                self.entries.insert(id.clone(), updated);
            },
            None => {
            },
        }
    }

    /// Point lookup of an artifact's metadata.
    pub fn get(&self, id: &String) -> (r: Option<&FileMetadata>)
        requires
            self.wf(),
        ensures
            match r {
                Some(m) => self@.contains_key(id@) && m@ == self@[id@],
                None => !self@.contains_key(id@),
            },
    {
        self.entries.get(id)
    }

    /// Removes the entry paired with a deleted artifact; absence is a
    /// no-op.
    pub fn remove(&mut self, id: &String)
        requires
            old(self).wf(),
        ensures
            final(self).wf(),
            final(self)@ == old(self)@.remove(id@),
    {
        self.entries.remove(id);
    }

    /// How many artifacts have metadata.
    pub fn len(&self) -> (r: usize)
        requires
            self.wf(),
        ensures
            r == self@.dom().len(),
    {
        self.entries.len()
    }

    /// Adds a tag to an artifact's entry, keeping the tag sequence free of
    /// duplicates; reports whether the tag is newly present.
    pub fn add_tag(&mut self, id: &String, tag: String) -> (r: bool)
        requires
            old(self).wf(),
        ensures
            final(self).wf(),
            !old(self)@.contains_key(id@) ==> final(self)@ == old(self)@ && r == false,
            old(self)@.contains_key(id@) ==> {
                let tags = old(self)@[id@].tags;
                if tags.contains(tag@) {
                    final(self)@ == old(self)@ && r == false
                } else {
                    r == true && final(self)@ == old(self)@.insert(
                        id@,
                        FileMetadataView { tags: tags.push(tag@), ..old(self)@[id@] },
                    )
                }
            },
    {
        let entry = match self.entries.get(id) {
            Some(entry) => entry,
            None => {
                return false;
            },
        };
        let mut i: usize = 0;
        let n = entry.tags.len();
        while i < n
            invariant
                n == entry.tags@.len(),
                i <= n,
                forall|j: int| 0 <= j < i ==> entry.tags@[j]@ != tag@,
                *self == *old(self),
                self.wf(),
                self@.contains_key(id@),
                entry@ == self@[id@],
            decreases n - i,
        {
            if entry.tags[i] == tag {
                proof {
                    assert(self@[id@].tags[i as int] == tag@);
                }
                return false;
            }
            i += 1;
        }
        proof {
            assert forall|j: int| 0 <= j < self@[id@].tags.len() implies self@[id@].tags[j]
                != tag@ by {
            }
        }
        let ghost tag_view = tag@;
        let mut updated = entry.clone();
        updated.tags.push(tag);
        proof {
            assert(updated@ =~= FileMetadataView {
                tags: old(self)@[id@].tags.push(tag_view),
                ..old(self)@[id@]
            });
        }
        self.entries.insert(id.clone(), updated);
        true
    }

    /// Removes a tag from an artifact's entry, if both exist; reports
    /// whether a tag was removed.
    pub fn remove_tag(&mut self, id: &String, tag: &String) -> (r: bool)
        requires
            old(self).wf(),
        ensures
            final(self).wf(),
            !old(self)@.contains_key(id@) ==> final(self)@ == old(self)@ && r == false,
            old(self)@.contains_key(id@) ==> {
                let tags = old(self)@[id@].tags;
                if tags.contains(tag@) {
                    r == true && exists|i: int|
                        0 <= i < tags.len() && tags[i] == tag@ && final(self)@ == old(
                            self,
                        )@.insert(
                            id@,
                            FileMetadataView { tags: tags.remove(i), ..old(self)@[id@] },
                        )
                } else {
                    final(self)@ == old(self)@ && r == false
                }
            },
    {
        let entry = match self.entries.get(id) {
            Some(entry) => entry,
            None => {
                return false;
            },
        };
        let mut i: usize = 0;
        let n = entry.tags.len();
        let mut found: Option<usize> = None;
        while i < n
            invariant
                n == entry.tags@.len(),
                i <= n,
                *self == *old(self),
                self.wf(),
                self@.contains_key(id@),
                entry@ == self@[id@],
                match found {
                    Some(f) => f < n && entry.tags@[f as int]@ == tag@,
                    None => forall|j: int| 0 <= j < i ==> entry.tags@[j]@ != tag@,
                },
            decreases n - i,
        {
            if found.is_none() && entry.tags[i] == *tag {
                found = Some(i);
            }
            i += 1;
        }
        match found {
            Some(f) => {
                let mut updated = entry.clone();
                proof {
                    assert(updated@ == entry@);
                    assert(updated@.tags.len() == updated.tags@.len());
                    assert(entry@.tags.len() == entry.tags@.len());
                }
                let _removed = updated.tags.remove(f);
                proof {
                    let tags = old(self)@[id@].tags;
                    assert(tags[f as int] == tag@);
                    assert(updated@.tags =~= tags.remove(f as int));
                    assert(updated@ =~= FileMetadataView {
                        tags: tags.remove(f as int),
                        ..old(self)@[id@]
                    });
                }
                self.entries.insert(id.clone(), updated);
                proof {
                    let tags = old(self)@[id@].tags;
                    assert(tags.contains(tag@)) by {
                        assert(tags[f as int] == tag@);
                    }
                }
                true
            },
            None => {
                proof {
                    let tags = old(self)@[id@].tags;
                    assert(!tags.contains(tag@)) by {
                        if tags.contains(tag@) {
                            let j = choose|j: int| 0 <= j < tags.len() && tags[j] == tag@;
                            assert(entry.tags@[j]@ == tag@);
                        }
                    }
                }
                false
            },
        }
    }
}

} // verus!
