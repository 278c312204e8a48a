//! Properties that span several operations, stated over the abstract
//! state and proved once for every run of the engine.

use vstd::prelude::*;
use crate::ids::lemma_fresh_ids_distinct;
use crate::records::FileMetadataView;
use crate::service::{model_uploaded, StateView};
use crate::tracker::after_access;

verus! {

/// Two model uploads in a row return distinct identifiers — the serial
/// counter alone guarantees it, even when both land on one timestamp
/// tick — and the second upload leaves the first record untouched.
pub proof fn law_successive_uploads_distinct(
    s0: StateView,
    s1: StateView,
    s2: StateView,
    id1: Seq<char>,
    id2: Seq<char>,
    name1: Seq<char>,
    name2: Seq<char>,
    description: Seq<char>,
    model_type: Seq<char>,
    version: Seq<char>,
    payload1: Seq<u8>,
    payload2: Seq<u8>,
    uploader: Seq<char>,
    is_public: bool,
    t1: u64,
    t2: u64,
)
    requires
        model_uploaded(
            s0,
            s1,
            id1,
            name1,
            description,
            model_type,
            version,
            payload1,
            uploader,
            is_public,
            t1,
        ),
        model_uploaded(
            s1,
            s2,
            id2,
            name2,
            description,
            model_type,
            version,
            payload2,
            uploader,
            is_public,
            t2,
        ),
    ensures
        id1 != id2,
        s2.models.contains_key(id1),
        s2.models[id1] == s1.models[id1],
        s2.models[id1].file_size == payload1.len(),
{
    lemma_fresh_ids_distinct(t1, s0.next_serial, t2, s1.next_serial);
}

/// The metadata map after a run of counted accesses to `id`, one per
/// timestamp in `ts`, oldest first.
pub open spec fn after_accesses(
    m: Map<Seq<char>, FileMetadataView>,
    id: Seq<char>,
    ts: Seq<u64>,
) -> Map<Seq<char>, FileMetadataView>
    decreases ts.len(),
{
    if ts.len() == 0 {
        m
    } else {
        after_access(after_accesses(m, id, ts.drop_last()), id, ts.last())
    }
}

/// A run of counted accesses to an artifact with a metadata entry grows
/// its access counter by exactly the number of accesses, stamps the last
/// access time, and touches nothing else about the entry.
pub proof fn law_sequential_accesses(
    m: Map<Seq<char>, FileMetadataView>,
    id: Seq<char>,
    ts: Seq<u64>,
)
    requires
        m.contains_key(id),
    ensures
        after_accesses(m, id, ts).contains_key(id),
        after_accesses(m, id, ts)[id].access_count == m[id].access_count + ts.len(),
        ts.len() > 0 ==> after_accesses(m, id, ts)[id].last_accessed == ts.last(),
        ts.len() == 0 ==> after_accesses(m, id, ts) == m,
        after_accesses(m, id, ts)[id].file_id == m[id].file_id,
        after_accesses(m, id, ts)[id].file_type == m[id].file_type,
        after_accesses(m, id, ts)[id].tags == m[id].tags,
        forall|k: Seq<char>| #[trigger]
            after_accesses(m, id, ts).contains_key(k) == m.contains_key(k),
        forall|k: Seq<char>|
            m.contains_key(k) && k != id ==> #[trigger] after_accesses(m, id, ts)[k] == m[k],
    decreases ts.len(),
{
    if ts.len() > 0 {
        law_sequential_accesses(m, id, ts.drop_last());
    }
}

/// A counted access to one artifact leaves every other artifact's
/// metadata entry exactly as it was.
pub proof fn law_access_frames_others(
    m: Map<Seq<char>, FileMetadataView>,
    id: Seq<char>,
    now: u64,
    other: Seq<char>,
)
    requires
        other != id,
    ensures
        after_access(m, id, now).contains_key(other) == m.contains_key(other),
        m.contains_key(other) ==> after_access(m, id, now)[other] == m[other],
{
}

} // verus!
