//! The artifact service: validation, identifier generation, cross-store
//! consistency (an artifact and its metadata are created and deleted
//! together) and event emission.
//!
//! Every operation takes the current timestamp as an argument; the
//! `*_now` forms draw it from the host clock instead. Events are appended
//! to an internal log in emission order; the surrounding runtime drains
//! and delivers them.

use vstd::prelude::*;
use vstd::set_lib::lemma_set_disjoint_lens;
use vstd::string::StringExecFns;
use crate::clock::time_now;
use crate::errors::{StoreError, StoreErrorView};
use crate::events::{Event, EventView};
use crate::ids::{
    annotation_id, lemma_model_id_head, lemma_scan_id_head, model_id, scan_id,
    spec_annotation_id, spec_model_id, spec_scan_id,
};
use crate::records::{
    FileMetadata, FileMetadataView, ModelRecord, ModelRecordView, ScanRecord, ScanRecordView,
};
use crate::store::KeyedStore;
use crate::tracker::{after_access, initial_metadata, MetadataTracker};

verus! {

/// Ceiling on a model payload, in bytes.
pub const MODEL_MAX_BYTES: u64 = 10 * 1024 * 1024;

/// Ceiling on a scan payload, in bytes.
pub const SCAN_MAX_BYTES: u64 = 50 * 1024 * 1024;

/// The service's whole abstract state: the two record tiers, the
/// metadata paired with them, the emitted events in order, and the
/// serial counter that keeps generated identifiers distinct.
#[verifier::ext_equal]
pub struct StateView {
    pub models: Map<Seq<char>, ModelRecordView>,
    pub scans: Map<Seq<char>, ScanRecordView>,
    pub metadata: Map<Seq<char>, FileMetadataView>,
    pub events: Seq<EventView>,
    pub next_serial: u64,
}

/// The cross-store consistency invariant:
/// - every record sits under its own identifier, and the two tiers'
///   key namespaces cannot collide (model keys start with 'm', scan
///   keys with 's');
/// - exactly the stored artifacts have a metadata entry, and each entry
///   names its artifact and the tier that holds it.
pub open spec fn wf_state(s: StateView) -> bool {
    &&& forall|k: Seq<char>| #[trigger]
        s.models.contains_key(k) ==> s.models[k].id == k && k.len() > 0 && k[0] == 'm'
    &&& forall|k: Seq<char>| #[trigger]
        s.scans.contains_key(k) ==> s.scans[k].id == k && k.len() > 0 && k[0] == 's'
    &&& forall|k: Seq<char>|
        #![trigger s.metadata.contains_key(k)]
        #![trigger s.models.contains_key(k)]
        #![trigger s.scans.contains_key(k)]
        s.metadata.contains_key(k) <==> (s.models.contains_key(k) || s.scans.contains_key(k))
    &&& forall|k: Seq<char>| #[trigger]
        s.metadata.contains_key(k) ==> s.metadata[k].file_id == k
    &&& forall|k: Seq<char>| #[trigger]
        s.models.contains_key(k) ==> s.metadata.contains_key(k) && s.metadata[k].file_type
            == "model"@
    &&& forall|k: Seq<char>| #[trigger]
        s.scans.contains_key(k) ==> s.metadata.contains_key(k) && s.metadata[k].file_type
            == "scan"@
}

/// An operation that moves no record in or out of any store and keeps
/// every record under its identifier and every metadata entry's artifact
/// reference keeps the consistency invariant.
pub proof fn lemma_wf_frame(pre: StateView, post: StateView)
    requires
        wf_state(pre),
        forall|k: Seq<char>| #[trigger]
            post.models.contains_key(k) == pre.models.contains_key(k),
        forall|k: Seq<char>| #[trigger]
            pre.models.contains_key(k) ==> post.models[k].id == pre.models[k].id,
        forall|k: Seq<char>| #[trigger]
            post.scans.contains_key(k) == pre.scans.contains_key(k),
        forall|k: Seq<char>| #[trigger]
            pre.scans.contains_key(k) ==> post.scans[k].id == pre.scans[k].id,
        forall|k: Seq<char>| #[trigger]
            post.metadata.contains_key(k) == pre.metadata.contains_key(k),
        forall|k: Seq<char>| #[trigger]
            pre.metadata.contains_key(k) ==> post.metadata[k].file_id == pre.metadata[k].file_id
                && post.metadata[k].file_type == pre.metadata[k].file_type,
    ensures
        wf_state(post),
{
    assert forall|k: Seq<char>| #[trigger] post.models.contains_key(k)
        implies post.models[k].id == k && k.len() > 0 && k[0] == 'm' by {
        assert(pre.models.contains_key(k));
    }
    assert forall|k: Seq<char>| #[trigger] post.scans.contains_key(k)
        implies post.scans[k].id == k && k.len() > 0 && k[0] == 's' by {
        assert(pre.scans.contains_key(k));
    }
    assert forall|k: Seq<char>|
        post.metadata.contains_key(k) <==> (post.models.contains_key(k)
            || post.scans.contains_key(k)) by {
        assert(pre.metadata.contains_key(k) <==> (pre.models.contains_key(k)
            || pre.scans.contains_key(k)));
    }
    assert forall|k: Seq<char>| #[trigger] post.metadata.contains_key(k)
        implies post.metadata[k].file_id == k by {
        assert(pre.metadata.contains_key(k));
    }
    assert forall|k: Seq<char>| #[trigger] post.models.contains_key(k)
        implies post.metadata.contains_key(k) && post.metadata[k].file_type == "model"@ by {
        assert(pre.models.contains_key(k));
        assert(pre.metadata.contains_key(k));
    }
    assert forall|k: Seq<char>| #[trigger] post.scans.contains_key(k)
        implies post.metadata.contains_key(k) && post.metadata[k].file_type == "scan"@ by {
        assert(pre.scans.contains_key(k));
        assert(pre.metadata.contains_key(k));
    }
}

/// The record store engine.
pub struct AppState {
    pub models: KeyedStore<ModelRecord>,
    pub scans: KeyedStore<ScanRecord>,
    pub tracker: MetadataTracker,
    pub events: Vec<Event>,
    pub next_serial: u64,
}

impl View for AppState {
    type V = StateView;

    open spec fn view(&self) -> StateView {
        StateView {
            models: self.models@,
            scans: self.scans@,
            metadata: self.tracker@,
            events: Seq::new(self.events@.len(), |i: int| self.events@[i]@),
            next_serial: self.next_serial,
        }
    }
}

/// What a successful model upload does: the new record and its metadata
/// entry appear together under the fresh identifier, an event is
/// appended, and nothing else moves.
pub open spec fn model_uploaded(
    pre: StateView,
    post: StateView,
    id: Seq<char>,
    name: Seq<char>,
    description: Seq<char>,
    model_type: Seq<char>,
    version: Seq<char>,
    payload: Seq<u8>,
    uploader: Seq<char>,
    is_public: bool,
    now: u64,
) -> bool {
    &&& id == spec_model_id(now, pre.next_serial)
    &&& post.models == pre.models.insert(
        id,
        ModelRecordView {
            id: id,
            name: name,
            description: description,
            model_type: model_type,
            version: version,
            file_size: payload.len(),
            payload: payload,
            uploader: uploader,
            created_at: now,
            is_public: is_public,
        },
    )
    &&& post.scans == pre.scans
    &&& post.metadata == pre.metadata.insert(id, initial_metadata(id, "model"@, now))
    &&& post.events == pre.events.push(EventView::ModelUploaded { model_id: id, name: name })
    &&& post.next_serial == pre.next_serial + 1
}

/// What a successful scan upload does.
pub open spec fn scan_uploaded(
    pre: StateView,
    post: StateView,
    id: Seq<char>,
    patient_id: Seq<char>,
    scan_type: Seq<char>,
    body_part: Seq<char>,
    payload: Seq<u8>,
    uploader: Seq<char>,
    now: u64,
) -> bool {
    &&& id == spec_scan_id(now, pre.next_serial)
    &&& post.scans == pre.scans.insert(
        id,
        ScanRecordView {
            id: id,
            patient_id: patient_id,
            scan_type: scan_type,
            body_part: body_part,
            file_size: payload.len(),
            payload: payload,
            uploader: uploader,
            created_at: now,
            annotation_count: 0,
        },
    )
    &&& post.models == pre.models
    &&& post.metadata == pre.metadata.insert(id, initial_metadata(id, "scan"@, now))
    &&& post.events == pre.events.push(
        EventView::ScanUploaded { scan_id: id, patient_id: patient_id },
    )
    &&& post.next_serial == pre.next_serial + 1
}

/// What a successful model download does: the record itself is
/// untouched, its metadata entry counts one access at the given time,
/// and the download event is appended.
pub open spec fn model_downloaded(
    pre: StateView,
    post: StateView,
    id: Seq<char>,
    downloader: Seq<char>,
    now: u64,
) -> bool {
    &&& pre.models.contains_key(id)
    &&& post.models == pre.models
    &&& post.scans == pre.scans
    &&& post.metadata == after_access(pre.metadata, id, now)
    &&& post.events == pre.events.push(
        EventView::ModelDownloaded { model_id: id, downloader: downloader },
    )
    &&& post.next_serial == pre.next_serial
}

/// What a successful scan download does.
pub open spec fn scan_downloaded(
    pre: StateView,
    post: StateView,
    id: Seq<char>,
    downloader: Seq<char>,
    now: u64,
) -> bool {
    &&& pre.scans.contains_key(id)
    &&& post.models == pre.models
    &&& post.scans == pre.scans
    &&& post.metadata == after_access(pre.metadata, id, now)
    &&& post.events == pre.events.push(
        EventView::ScanDownloaded { scan_id: id, downloader: downloader },
    )
    &&& post.next_serial == pre.next_serial
}

/// What a successful annotation addition does: exactly the scan's
/// annotation counter grows, by one; the label is accepted but not
/// persisted beyond the event.
pub open spec fn annotation_added(
    pre: StateView,
    post: StateView,
    scan_key: Seq<char>,
    aid: Seq<char>,
    now: u64,
) -> bool {
    &&& pre.scans.contains_key(scan_key)
    &&& aid == spec_annotation_id(now, pre.next_serial)
    &&& post.scans == pre.scans.insert(
        scan_key,
        ScanRecordView {
            annotation_count: pre.scans[scan_key].annotation_count + 1,
            ..pre.scans[scan_key]
        },
    )
    &&& post.models == pre.models
    &&& post.metadata == pre.metadata
    &&& post.events == pre.events.push(
        EventView::AnnotationAdded { scan_id: scan_key, annotation_id: aid },
    )
    &&& post.next_serial == pre.next_serial + 1
}

impl AppState {
    /// The stores' keys are unique and the cross-store invariant holds.
    pub open spec fn wf(&self) -> bool {
        &&& self.models.wf()
        &&& self.scans.wf()
        &&& self.tracker.wf()
        &&& wf_state(self@)
    }

    /// An empty engine: no records, no metadata, no events.
    pub fn init() -> (s: AppState)
        ensures
            s.wf(),
            s@.models == Map::<Seq<char>, ModelRecordView>::empty(),
            s@.scans == Map::<Seq<char>, ScanRecordView>::empty(),
            s@.metadata == Map::<Seq<char>, FileMetadataView>::empty(),
            s@.events == Seq::<EventView>::empty(),
            s@.next_serial == 0,
    {
        let s = AppState {
            models: KeyedStore::new(),
            scans: KeyedStore::new(),
            tracker: MetadataTracker::new(),
            events: Vec::new(),
            next_serial: 0,
        };
        proof {
            assert(s@.events =~= Seq::<EventView>::empty());
        }
        s
    }

    /// Stores a model whose payload is within the model size ceiling,
    /// together with its initial metadata entry, and emits the upload
    /// event; an oversized payload is refused before any mutation.
    pub fn upload_model(
        &mut self,
        name: String,
        description: String,
        model_type: String,
        version: String,
        payload: Vec<u8>,
        uploader: String,
        is_public: bool,
        now: u64,
    ) -> (r: Result<String, StoreError>)
        requires
            old(self).wf(),
            old(self)@.next_serial < u64::MAX,
        ensures
            final(self).wf(),
            match r {
                Ok(id) => {
                    &&& payload@.len() <= MODEL_MAX_BYTES
                    &&& model_uploaded(
                        old(self)@,
                        final(self)@,
                        id@,
                        name@,
                        description@,
                        model_type@,
                        version@,
                        payload@,
                        uploader@,
                        is_public,
                        now,
                    )
                    &&& final(self)@.models.contains_key(id@)
                    &&& final(self)@.models[id@].file_size == payload@.len()
                },
                Err(e) => {
                    &&& payload@.len() > MODEL_MAX_BYTES
                    &&& e@ == StoreErrorView::FileTooLarge(payload@.len() as u64)
                    &&& final(self)@ == old(self)@
                },
            },
    {
        if payload.len() as u64 > MODEL_MAX_BYTES {
            return Err(StoreError::FileTooLarge(payload.len() as u64));
        }
        let id = model_id(now, self.next_serial);
        self.next_serial = self.next_serial + 1;
        let record = ModelRecord {
            id: id.clone(),
            name: name.clone(),
            description,
            model_type,
            version,
            file_size: payload.len() as u64,
            payload,
            uploader,
            created_at: now,
            is_public,
        };
        proof {
            lemma_model_id_head(now, old(self)@.next_serial);
        }
        self.models.insert(id.clone(), record);
        self.tracker.create(id.clone(), String::from_str("model"), now);
        self.events.push(Event::ModelUploaded { model_id: id.clone(), name });
        proof {
            let pre = old(self)@;
            let post = self@;
            let idv = spec_model_id(now, pre.next_serial);
            assert(post.models == pre.models.insert(
                idv,
                ModelRecordView {
                    id: idv,
                    name: name@,
                    description: description@,
                    model_type: model_type@,
                    version: version@,
                    file_size: payload@.len(),
                    payload: payload@,
                    uploader: uploader@,
                    created_at: now,
                    is_public: is_public,
                },
            )) by {
                assert(post.models =~= pre.models.insert(
                    idv,
                    ModelRecordView {
                        id: idv,
                        name: name@,
                        description: description@,
                        model_type: model_type@,
                        version: version@,
                        file_size: payload@.len(),
                        payload: payload@,
                        uploader: uploader@,
                        created_at: now,
                        is_public: is_public,
                    },
                ));
            }
            assert(post.events =~= pre.events.push(
                EventView::ModelUploaded { model_id: idv, name: name@ },
            ));
            assert(wf_state(post)) by {
                assert forall|k: Seq<char>| #[trigger] post.models.contains_key(k)
                    implies post.models[k].id == k && k.len() > 0 && k[0] == 'm' by {
                    if k != idv {
                        assert(pre.models.contains_key(k));
                    }
                }
                assert forall|k: Seq<char>| #[trigger] post.scans.contains_key(k)
                    implies post.scans[k].id == k && k.len() > 0 && k[0] == 's' by {
                    assert(pre.scans.contains_key(k));
                }
                assert forall|k: Seq<char>|
                    post.metadata.contains_key(k) <==> (post.models.contains_key(k)
                        || post.scans.contains_key(k)) by {
                    if k != idv {
                        assert(pre.metadata.contains_key(k) <==> (pre.models.contains_key(k)
                            || pre.scans.contains_key(k)));
                    }
                }
                assert forall|k: Seq<char>| #[trigger] post.metadata.contains_key(k)
                    implies post.metadata[k].file_id == k by {
                    if k != idv {
                        assert(pre.metadata.contains_key(k));
                    }
                }
                assert forall|k: Seq<char>| #[trigger] post.models.contains_key(k)
                    implies post.metadata.contains_key(k) && post.metadata[k].file_type
                        == "model"@ by {
                    if k != idv {
                        assert(pre.models.contains_key(k));
                    }
                }
                assert forall|k: Seq<char>| #[trigger] post.scans.contains_key(k)
                    implies post.metadata.contains_key(k) && post.metadata[k].file_type
                        == "scan"@ by {
                    assert(pre.scans.contains_key(k));
                    assert(k[0] == 's');
                    assert(idv[0] == 'm');
                }
            }
        }
        Ok(id)
    }

    /// Stores a scan whose payload is within the scan size ceiling,
    /// together with its initial metadata entry, and emits the upload
    /// event; an oversized payload is refused before any mutation.
    pub fn upload_scan(
        &mut self,
        patient_id: String,
        scan_type: String,
        body_part: String,
        payload: Vec<u8>,
        uploader: String,
        now: u64,
    ) -> (r: Result<String, StoreError>)
        requires
            old(self).wf(),
            old(self)@.next_serial < u64::MAX,
        ensures
            final(self).wf(),
            match r {
                Ok(id) => {
                    &&& payload@.len() <= SCAN_MAX_BYTES
                    &&& scan_uploaded(
                        old(self)@,
                        final(self)@,
                        id@,
                        patient_id@,
                        scan_type@,
                        body_part@,
                        payload@,
                        uploader@,
                        now,
                    )
                    &&& final(self)@.scans.contains_key(id@)
                    &&& final(self)@.scans[id@].file_size == payload@.len()
                },
                Err(e) => {
                    &&& payload@.len() > SCAN_MAX_BYTES
                    &&& e@ == StoreErrorView::FileTooLarge(payload@.len() as u64)
                    &&& final(self)@ == old(self)@
                },
            },
    {
        if payload.len() as u64 > SCAN_MAX_BYTES {
            return Err(StoreError::FileTooLarge(payload.len() as u64));
        }
        let id = scan_id(now, self.next_serial);
        self.next_serial = self.next_serial + 1;
        let record = ScanRecord {
            id: id.clone(),
            patient_id: patient_id.clone(),
            scan_type,
            body_part,
            file_size: payload.len() as u64,
            payload,
            uploader,
            created_at: now,
            annotation_count: 0,
        };
        proof {
            lemma_scan_id_head(now, old(self)@.next_serial);
        }
        self.scans.insert(id.clone(), record);
        self.tracker.create(id.clone(), String::from_str("scan"), now);
        self.events.push(Event::ScanUploaded { scan_id: id.clone(), patient_id });
        proof {
            let pre = old(self)@;
            let post = self@;
            let idv = spec_scan_id(now, pre.next_serial);
            assert(post.scans == pre.scans.insert(
                idv,
                ScanRecordView {
                    id: idv,
                    patient_id: patient_id@,
                    scan_type: scan_type@,
                    body_part: body_part@,
                    file_size: payload@.len(),
                    payload: payload@,
                    uploader: uploader@,
                    created_at: now,
                    annotation_count: 0,
                },
            )) by {
                assert(post.scans =~= pre.scans.insert(
                    idv,
                    ScanRecordView {
                        id: idv,
                        patient_id: patient_id@,
                        scan_type: scan_type@,
                        body_part: body_part@,
                        file_size: payload@.len(),
                        payload: payload@,
                        uploader: uploader@,
                        created_at: now,
                        annotation_count: 0,
                    },
                ));
            }
            assert(post.events =~= pre.events.push(
                EventView::ScanUploaded { scan_id: idv, patient_id: patient_id@ },
            ));
            assert(wf_state(post)) by {
                assert forall|k: Seq<char>| #[trigger] post.scans.contains_key(k)
                    implies post.scans[k].id == k && k.len() > 0 && k[0] == 's' by {
                    if k != idv {
                        assert(pre.scans.contains_key(k));
                    }
                }
                assert forall|k: Seq<char>| #[trigger] post.models.contains_key(k)
                    implies post.models[k].id == k && k.len() > 0 && k[0] == 'm' by {
                    assert(pre.models.contains_key(k));
                }
                assert forall|k: Seq<char>|
                    post.metadata.contains_key(k) <==> (post.models.contains_key(k)
                        || post.scans.contains_key(k)) by {
                    if k != idv {
                        assert(pre.metadata.contains_key(k) <==> (pre.models.contains_key(k)
                            || pre.scans.contains_key(k)));
                    }
                }
                assert forall|k: Seq<char>| #[trigger] post.metadata.contains_key(k)
                    implies post.metadata[k].file_id == k by {
                    if k != idv {
                        assert(pre.metadata.contains_key(k));
                    }
                }
                assert forall|k: Seq<char>| #[trigger] post.scans.contains_key(k)
                    implies post.metadata.contains_key(k) && post.metadata[k].file_type
                        == "scan"@ by {
                    if k != idv {
                        assert(pre.scans.contains_key(k));
                    }
                }
                assert forall|k: Seq<char>| #[trigger] post.models.contains_key(k)
                    implies post.metadata.contains_key(k) && post.metadata[k].file_type
                        == "model"@ by {
                    assert(pre.models.contains_key(k));
                    assert(k[0] == 'm');
                    assert(idv[0] == 's');
                }
            }
        }
        Ok(id)
    }

    /// Pure lookup of a model; no metadata mutation, no event.
    pub fn get_model(&self, id: &String) -> (r: Option<&ModelRecord>)
        requires
            self.wf(),
        ensures
            match r {
                Some(m) => self@.models.contains_key(id@) && m@ == self@.models[id@],
                None => !self@.models.contains_key(id@),
            },
    {
        self.models.get(id)
    }

    /// Pure lookup of a scan.
    pub fn get_scan(&self, id: &String) -> (r: Option<&ScanRecord>)
        requires
            self.wf(),
        ensures
            match r {
                Some(s) => self@.scans.contains_key(id@) && s@ == self@.scans[id@],
                None => !self@.scans.contains_key(id@),
            },
    {
        self.scans.get(id)
    }

    /// Returns the model and counts one access on its metadata entry at
    /// time `now` (best effort: a missing entry skips the count), then
    /// emits the download event.
    pub fn download_model(&mut self, id: &String, downloader: String, now: u64) -> (r: Result<
        ModelRecord,
        StoreError,
    >)
        requires
            old(self).wf(),
            old(self)@.metadata.contains_key(id@) ==> old(self)@.metadata[id@].access_count
                < u64::MAX,
        ensures
            final(self).wf(),
            match r {
                Ok(m) => {
                    &&& old(self)@.models.contains_key(id@)
                    &&& m@ == old(self)@.models[id@]
                    &&& model_downloaded(old(self)@, final(self)@, id@, downloader@, now)
                },
                Err(e) => {
                    &&& !old(self)@.models.contains_key(id@)
                    &&& e@ == StoreErrorView::FileNotFound(id@)
                    &&& final(self)@ == old(self)@
                },
            },
    {
        let record = match self.models.get(id) {
            Some(m) => m.clone(),
            None => {
                return Err(StoreError::FileNotFound(id.clone()));
            },
        };
        self.tracker.record_access(id, now);
        self.events.push(Event::ModelDownloaded { model_id: id.clone(), downloader });
        proof {
            let pre = old(self)@;
            let post = self@;
            assert(post.events =~= pre.events.push(
                EventView::ModelDownloaded { model_id: id@, downloader: downloader@ },
            ));
            crate::tracker::lemma_after_access_preserves(pre.metadata, id@, now);
            lemma_wf_frame(pre, post);
        }
        Ok(record)
    }

    /// Returns the scan and counts one access, as `download_model` does.
    pub fn download_scan(&mut self, id: &String, downloader: String, now: u64) -> (r: Result<
        ScanRecord,
        StoreError,
    >)
        requires
            old(self).wf(),
            old(self)@.metadata.contains_key(id@) ==> old(self)@.metadata[id@].access_count
                < u64::MAX,
        ensures
            final(self).wf(),
            match r {
                Ok(s) => {
                    &&& old(self)@.scans.contains_key(id@)
                    &&& s@ == old(self)@.scans[id@]
                    &&& scan_downloaded(old(self)@, final(self)@, id@, downloader@, now)
                },
                Err(e) => {
                    &&& !old(self)@.scans.contains_key(id@)
                    &&& e@ == StoreErrorView::FileNotFound(id@)
                    &&& final(self)@ == old(self)@
                },
            },
    {
        let record = match self.scans.get(id) {
            Some(s) => s.clone(),
            None => {
                return Err(StoreError::FileNotFound(id.clone()));
            },
        };
        self.tracker.record_access(id, now);
        self.events.push(Event::ScanDownloaded { scan_id: id.clone(), downloader });
        proof {
            let pre = old(self)@;
            let post = self@;
            assert(post.events =~= pre.events.push(
                EventView::ScanDownloaded { scan_id: id@, downloader: downloader@ },
            ));
            crate::tracker::lemma_after_access_preserves(pre.metadata, id@, now);
            lemma_wf_frame(pre, post);
        }
        Ok(record)
    }

    /// Increments the scan's annotation counter by exactly one and emits
    /// the annotation event; the label is accepted but not persisted
    /// beyond the count. Fails on a missing scan before any mutation.
    #[allow(unused_variables)]
    pub fn add_annotation(&mut self, scan_key: &String, label: String, now: u64) -> (r: Result<
        String,
        StoreError,
    >)
        requires
            old(self).wf(),
            old(self)@.next_serial < u64::MAX,
            old(self)@.scans.contains_key(scan_key@) ==> old(self)@.scans[
                scan_key@
            ].annotation_count < u64::MAX,
        ensures
            final(self).wf(),
            match r {
                Ok(aid) => {
                    &&& old(self)@.scans.contains_key(scan_key@)
                    &&& annotation_added(old(self)@, final(self)@, scan_key@, aid@, now)
                    &&& final(self)@.scans[scan_key@].annotation_count == old(self)@.scans[
                        scan_key@
                    ].annotation_count + 1
                },
                Err(e) => {
                    &&& !old(self)@.scans.contains_key(scan_key@)
                    &&& e@ == StoreErrorView::FileNotFound(scan_key@)
                    &&& final(self)@ == old(self)@
                },
            },
    {
        let mut updated = match self.scans.get(scan_key) {
            Some(s) => s.clone(),
            None => {
                return Err(StoreError::FileNotFound(scan_key.clone()));
            },
        };
        updated.annotation_count = updated.annotation_count + 1;
        let aid = annotation_id(now, self.next_serial);
        self.next_serial = self.next_serial + 1;
        proof {
            assert(updated@ =~= ScanRecordView {
                annotation_count: old(self)@.scans[scan_key@].annotation_count + 1,
                ..old(self)@.scans[scan_key@]
            });
        }
        self.scans.insert(scan_key.clone(), updated);
        self.events.push(Event::AnnotationAdded {
            scan_id: scan_key.clone(),
            annotation_id: aid.clone(),
        });
        proof {
            let pre = old(self)@;
            let post = self@;
            assert(post.events =~= pre.events.push(
                EventView::AnnotationAdded { scan_id: scan_key@, annotation_id: aid@ },
            ));
            assert forall|k: Seq<char>| #[trigger]
                pre.scans.contains_key(k) implies post.scans[k].id == pre.scans[k].id by {
            }
            lemma_wf_frame(pre, post);
        }
        Ok(aid)
    }

    /// Removes the record named by `id` from the tier named by
    /// `file_type` ("model" or "scan"; anything else is refused before
    /// any mutation) together with its paired metadata entry, as one
    /// unit, and emits the deletion event. Absence of the record is
    /// tolerated; a record of the other tier under the same identifier
    /// keeps its metadata.
    pub fn delete_file(&mut self, id: &String, file_type: &String) -> (r: Result<
        (),
        StoreError,
    >)
        requires
            old(self).wf(),
        ensures
            final(self).wf(),
            match r {
                Ok(_) => {
                    &&& file_type@ == "model"@ || file_type@ == "scan"@
                    &&& file_type@ == "model"@ ==> {
                        &&& final(self)@.models == old(self)@.models.remove(id@)
                        &&& final(self)@.scans == old(self)@.scans
                        &&& final(self)@.metadata == (if old(self)@.models.contains_key(id@) {
                            old(self)@.metadata.remove(id@)
                        } else {
                            old(self)@.metadata
                        })
                        &&& !final(self)@.models.contains_key(id@)
                        &&& (final(self)@.metadata.contains_key(id@) <==> old(
                            self,
                        )@.scans.contains_key(id@))
                    }
                    &&& file_type@ == "scan"@ ==> {
                        &&& final(self)@.scans == old(self)@.scans.remove(id@)
                        &&& final(self)@.models == old(self)@.models
                        &&& final(self)@.metadata == (if old(self)@.scans.contains_key(id@) {
                            old(self)@.metadata.remove(id@)
                        } else {
                            old(self)@.metadata
                        })
                        &&& !final(self)@.scans.contains_key(id@)
                        &&& (final(self)@.metadata.contains_key(id@) <==> old(
                            self,
                        )@.models.contains_key(id@))
                    }
                    &&& final(self)@.events == old(self)@.events.push(
                        EventView::FileDeleted { file_id: id@, file_type: file_type@ },
                    )
                    &&& final(self)@.next_serial == old(self)@.next_serial
                },
                Err(e) => {
                    &&& file_type@ != "model"@ && file_type@ != "scan"@
                    &&& e@ == StoreErrorView::InvalidFileType(file_type@)
                    &&& final(self)@ == old(self)@
                },
            },
    {
        let model_name = String::from_str("model");
        let scan_name = String::from_str("scan");
        if *file_type == model_name {
            let existed = self.models.contains(id);
            self.models.remove(id);
            if existed {
                self.tracker.remove(id);
            }
            self.events.push(Event::FileDeleted {
                file_id: id.clone(),
                file_type: file_type.clone(),
            });
            proof {
                reveal_strlit("model");
                reveal_strlit("scan");
                assert("model"@.len() != "scan"@.len());
                let pre = old(self)@;
                let post = self@;
                assert(post.events =~= pre.events.push(
                    EventView::FileDeleted { file_id: id@, file_type: file_type@ },
                ));
                if !pre.models.contains_key(id@) {
                    assert(post.models =~= pre.models);
                }
                assert(wf_state(post)) by {
                    assert forall|k: Seq<char>| #[trigger] post.models.contains_key(k)
                        implies post.models[k].id == k && k.len() > 0 && k[0] == 'm' by {
                        assert(pre.models.contains_key(k));
                    }
                    assert forall|k: Seq<char>| #[trigger] post.scans.contains_key(k)
                        implies post.scans[k].id == k && k.len() > 0 && k[0] == 's' by {
                        assert(pre.scans.contains_key(k));
                    }
                    assert forall|k: Seq<char>|
                        post.metadata.contains_key(k) <==> (post.models.contains_key(k)
                            || post.scans.contains_key(k)) by {
                        assert(pre.metadata.contains_key(k) <==> (pre.models.contains_key(k)
                            || pre.scans.contains_key(k)));
                        if k == id@ && pre.models.contains_key(id@) {
                            assert(id@[0] == 'm');
                            assert(!pre.scans.contains_key(id@));
                        }
                    }
                    assert forall|k: Seq<char>| #[trigger] post.metadata.contains_key(k)
                        implies post.metadata[k].file_id == k by {
                        assert(pre.metadata.contains_key(k));
                    }
                    assert forall|k: Seq<char>| #[trigger] post.models.contains_key(k)
                        implies post.metadata.contains_key(k) && post.metadata[k].file_type
                            == "model"@ by {
                        assert(pre.models.contains_key(k));
                    }
                    assert forall|k: Seq<char>| #[trigger] post.scans.contains_key(k)
                        implies post.metadata.contains_key(k) && post.metadata[k].file_type
                            == "scan"@ by {
                        assert(pre.scans.contains_key(k));
                        if pre.models.contains_key(id@) {
                            assert(id@[0] == 'm');
                            assert(k != id@);
                        }
                    }
                }
                if !pre.scans.contains_key(id@) && pre.models.contains_key(id@) {
                    assert(!post.metadata.contains_key(id@));
                }
                if !pre.models.contains_key(id@) {
                    assert(post.metadata.contains_key(id@) <==> pre.scans.contains_key(id@));
                }
            }
            Ok(())
        } else if *file_type == scan_name {
            let existed = self.scans.contains(id);
            self.scans.remove(id);
            if existed {
                self.tracker.remove(id);
            }
            self.events.push(Event::FileDeleted {
                file_id: id.clone(),
                file_type: file_type.clone(),
            });
            proof {
                reveal_strlit("model");
                reveal_strlit("scan");
                assert("model"@.len() != "scan"@.len());
                let pre = old(self)@;
                let post = self@;
                assert(post.events =~= pre.events.push(
                    EventView::FileDeleted { file_id: id@, file_type: file_type@ },
                ));
                if !pre.scans.contains_key(id@) {
                    assert(post.scans =~= pre.scans);
                }
                assert(wf_state(post)) by {
                    assert forall|k: Seq<char>| #[trigger] post.models.contains_key(k)
                        implies post.models[k].id == k && k.len() > 0 && k[0] == 'm' by {
                        assert(pre.models.contains_key(k));
                    }
                    assert forall|k: Seq<char>| #[trigger] post.scans.contains_key(k)
                        implies post.scans[k].id == k && k.len() > 0 && k[0] == 's' by {
                        assert(pre.scans.contains_key(k));
                    }
                    assert forall|k: Seq<char>|
                        post.metadata.contains_key(k) <==> (post.models.contains_key(k)
                            || post.scans.contains_key(k)) by {
                        assert(pre.metadata.contains_key(k) <==> (pre.models.contains_key(k)
                            || pre.scans.contains_key(k)));
                        if k == id@ && pre.scans.contains_key(id@) {
                            assert(id@[0] == 's');
                            assert(!pre.models.contains_key(id@));
                        }
                    }
                    assert forall|k: Seq<char>| #[trigger] post.metadata.contains_key(k)
                        implies post.metadata[k].file_id == k by {
                        assert(pre.metadata.contains_key(k));
                    }
                    assert forall|k: Seq<char>| #[trigger] post.scans.contains_key(k)
                        implies post.metadata.contains_key(k) && post.metadata[k].file_type
                            == "scan"@ by {
                        assert(pre.scans.contains_key(k));
                    }
                    assert forall|k: Seq<char>| #[trigger] post.models.contains_key(k)
                        implies post.metadata.contains_key(k) && post.metadata[k].file_type
                            == "model"@ by {
                        assert(pre.models.contains_key(k));
                        if pre.scans.contains_key(id@) {
                            assert(id@[0] == 's');
                            assert(k != id@);
                        }
                    }
                }
                if !pre.models.contains_key(id@) && pre.scans.contains_key(id@) {
                    assert(!post.metadata.contains_key(id@));
                }
                if !pre.scans.contains_key(id@) {
                    assert(post.metadata.contains_key(id@) <==> pre.models.contains_key(id@));
                }
            }
            Ok(())
        } else {
            Err(StoreError::InvalidFileType(file_type.clone()))
        }
    }

    /// Exactly the stored models whose visibility flag is set, each once;
    /// the order is the store's enumeration order and is not specified.
    pub fn get_public_models(&self) -> (r: Vec<&ModelRecord>)
        requires
            self.wf(),
        ensures
            forall|i: int|
                0 <= i < r@.len() ==> self@.models.contains_key(#[trigger] r@[i]@.id) && r@[i]@
                    == self@.models[r@[i]@.id] && r@[i]@.is_public,
            forall|k: Seq<char>|
                #![trigger self@.models.contains_key(k)]
                self@.models.contains_key(k) && self@.models[k].is_public ==> exists|i: int|
                    0 <= i < r@.len() && r@[i]@ == self@.models[k],
            forall|i: int, j: int| 0 <= i < j < r@.len() ==> r@[i]@.id != r@[j]@.id,
    {
        let mut out: Vec<&ModelRecord> = Vec::new();
        let n = self.models.len();
        let mut i: usize = 0;
        while i < n
            invariant
                self.wf(),
                n == self.models.entries@.len(),
                i <= n,
                forall|a: int|
                    0 <= a < out@.len() ==> self@.models.contains_key(#[trigger] out@[a]@.id)
                        && out@[a]@ == self@.models[out@[a]@.id] && out@[a]@.is_public,
                forall|a: int|
                    0 <= a < out@.len() ==> exists|j: int|
                        0 <= j < i && #[trigger] out@[a]@.id == self.models.entries@[j].0@,
                forall|j: int|
                    0 <= j < i && (#[trigger] self.models.entries@[j].1@.is_public) ==> exists|
                        a: int,
                    | 0 <= a < out@.len() && out@[a]@ == self.models.entries@[j].1@,
                forall|a: int, b: int| 0 <= a < b < out@.len() ==> out@[a]@.id != out@[b]@.id,
            decreases n - i,
        {
            let ghost out0 = out@;
            let entry = self.models.nth(i);
            proof {
                assert(self@.models.contains_key(entry.0@));
                assert(self@.models[entry.0@] == entry.1@);
                assert(entry.1@.id == entry.0@);
                assert(entry.1@ == self.models.entries@[i as int].1@);
                assert(entry.1@.is_public == entry.1.is_public);
            }
            if entry.1.is_public {
                out.push(&entry.1);
                proof {
                    let last = out@.len() - 1;
                    assert(out@[last]@ == self.models.entries@[i as int].1@);
                    assert(out@[last]@.id == self.models.entries@[i as int].0@);
                    assert forall|a: int| 0 <= a < last implies out@[a]@.id != out@[last]@.id by {
                        let j = choose|j: int|
                            0 <= j < i && out@[a]@.id == self.models.entries@[j].0@;
                        assert(self.models.entries@[j].0@ != self.models.entries@[i as int].0@);
                    }
                }
            } else {
                proof {
                    assert(!self.models.entries@[i as int].1@.is_public);
                }
            }
            proof {
                assert forall|j: int|
                    0 <= j < i + 1 && (#[trigger] self.models.entries@[j].1@.is_public)
                    implies exists|a: int|
                        0 <= a < out@.len() && out@[a]@ == self.models.entries@[j].1@ by {
                    if j < i {
                        assert(exists|a: int|
                            0 <= a < out0.len() && out0[a]@ == self.models.entries@[j].1@);
                        let a = choose|a: int|
                            0 <= a < out0.len() && out0[a]@ == self.models.entries@[j].1@;
                        assert(out@[a]@ == self.models.entries@[j].1@);
                    } else {
                        assert(out@[out@.len() - 1]@ == self.models.entries@[j].1@);
                    }
                }
            }
            i += 1;
        }
        proof {
            assert forall|k: Seq<char>|
                self@.models.contains_key(k) && self@.models[k].is_public implies exists|a: int|
                0 <= a < out@.len() && out@[a]@ == self@.models[k] by {
                self.models.lemma_enumeration_complete(k);
                let j = choose|j: int|
                    0 <= j < self.models.entries@.len() && self.models.entries@[j].0@ == k
                        && self.models.entries@[j].1@ == self@.models[k];
                assert(self.models.entries@[j].1@.is_public);
            }
        }
        out
    }

    /// Exactly the stored scans whose patient identifier matches, each
    /// once; unordered in the same sense as `get_public_models`.
    pub fn get_scans_by_patient(&self, patient_id: &String) -> (r: Vec<&ScanRecord>)
        requires
            self.wf(),
        ensures
            forall|i: int|
                0 <= i < r@.len() ==> self@.scans.contains_key(#[trigger] r@[i]@.id) && r@[i]@
                    == self@.scans[r@[i]@.id] && r@[i]@.patient_id == patient_id@,
            forall|k: Seq<char>|
                #![trigger self@.scans.contains_key(k)]
                self@.scans.contains_key(k) && self@.scans[k].patient_id == patient_id@
                    ==> exists|i: int| 0 <= i < r@.len() && r@[i]@ == self@.scans[k],
            forall|i: int, j: int| 0 <= i < j < r@.len() ==> r@[i]@.id != r@[j]@.id,
    {
        let mut out: Vec<&ScanRecord> = Vec::new();
        let n = self.scans.len();
        let mut i: usize = 0;
        while i < n
            invariant
                self.wf(),
                n == self.scans.entries@.len(),
                i <= n,
                forall|a: int|
                    0 <= a < out@.len() ==> self@.scans.contains_key(#[trigger] out@[a]@.id)
                        && out@[a]@ == self@.scans[out@[a]@.id] && out@[a]@.patient_id
                        == patient_id@,
                forall|a: int|
                    0 <= a < out@.len() ==> exists|j: int|
                        0 <= j < i && #[trigger] out@[a]@.id == self.scans.entries@[j].0@,
                forall|j: int|
                    0 <= j < i && (#[trigger] self.scans.entries@[j].1@.patient_id
                        == patient_id@) ==> exists|a: int|
                        0 <= a < out@.len() && out@[a]@ == self.scans.entries@[j].1@,
                forall|a: int, b: int| 0 <= a < b < out@.len() ==> out@[a]@.id != out@[b]@.id,
            decreases n - i,
        {
            let ghost out0 = out@;
            let entry = self.scans.nth(i);
            proof {
                assert(self@.scans.contains_key(entry.0@));
                assert(self@.scans[entry.0@] == entry.1@);
                assert(entry.1@.id == entry.0@);
                assert(entry.1@ == self.scans.entries@[i as int].1@);
            }
            if entry.1.patient_id == *patient_id {
                out.push(&entry.1);
                proof {
                    let last = out@.len() - 1;
                    assert(out@[last]@ == self.scans.entries@[i as int].1@);
                    assert(out@[last]@.patient_id == patient_id@);
                    assert(out@[last]@.id == self.scans.entries@[i as int].0@);
                    assert forall|a: int| 0 <= a < last implies out@[a]@.id != out@[last]@.id by {
                        let j = choose|j: int|
                            0 <= j < i && out@[a]@.id == self.scans.entries@[j].0@;
                        assert(self.scans.entries@[j].0@ != self.scans.entries@[i as int].0@);
                    }
                }
            } else {
                proof {
                    assert(self.scans.entries@[i as int].1@.patient_id != patient_id@);
                }
            }
            proof {
                assert forall|j: int|
                    0 <= j < i + 1 && (#[trigger] self.scans.entries@[j].1@.patient_id
                        == patient_id@) implies exists|a: int|
                        0 <= a < out@.len() && out@[a]@ == self.scans.entries@[j].1@ by {
                    if j < i {
                        assert(exists|a: int|
                            0 <= a < out0.len() && out0[a]@ == self.scans.entries@[j].1@);
                        let a = choose|a: int|
                            0 <= a < out0.len() && out0[a]@ == self.scans.entries@[j].1@;
                        assert(out@[a]@ == self.scans.entries@[j].1@);
                    } else {
                        assert(out@[out@.len() - 1]@ == self.scans.entries@[j].1@);
                    }
                }
            }
            i += 1;
        }
        proof {
            assert forall|k: Seq<char>|
                self@.scans.contains_key(k) && self@.scans[k].patient_id == patient_id@
                implies exists|a: int| 0 <= a < out@.len() && out@[a]@ == self@.scans[k] by {
                self.scans.lemma_enumeration_complete(k);
                let j = choose|j: int|
                    0 <= j < self.scans.entries@.len() && self.scans.entries@[j].0@ == k
                        && self.scans.entries@[j].1@ == self@.scans[k];
                assert(self.scans.entries@[j].1@.patient_id == patient_id@);
            }
        }
        out
    }

    /// Pure lookup of an artifact's metadata entry.
    pub fn get_file_metadata(&self, id: &String) -> (r: Option<&FileMetadata>)
        requires
            self.wf(),
        ensures
            match r {
                Some(m) => self@.metadata.contains_key(id@) && m@ == self@.metadata[id@],
                None => !self@.metadata.contains_key(id@),
            },
    {
        self.tracker.get(id)
    }

    /// Every metadata entry, each once; unordered.
    pub fn get_all_metadata(&self) -> (r: Vec<&FileMetadata>)
        requires
            self.wf(),
        ensures
            forall|i: int|
                0 <= i < r@.len() ==> self@.metadata.contains_key(#[trigger] r@[i]@.file_id)
                    && r@[i]@ == self@.metadata[r@[i]@.file_id],
            forall|k: Seq<char>|
                #![trigger self@.metadata.contains_key(k)]
                self@.metadata.contains_key(k) ==> exists|i: int|
                    0 <= i < r@.len() && r@[i]@ == self@.metadata[k],
            r@.len() == self@.metadata.dom().len(),
    {
        let mut out: Vec<&FileMetadata> = Vec::new();
        let n = self.tracker.entries.len();
        let mut i: usize = 0;
        while i < n
            invariant
                self.wf(),
                n == self.tracker.entries.entries@.len(),
                i <= n,
                out@.len() == i,
                forall|a: int|
                    0 <= a < out@.len() ==> self@.metadata.contains_key(
                        #[trigger] out@[a]@.file_id,
                    ) && out@[a]@ == self@.metadata[out@[a]@.file_id],
                forall|j: int|
                    0 <= j < i ==> #[trigger] out@[j]@ == self.tracker.entries.entries@[j].1@,
            decreases n - i,
        {
            let entry = self.tracker.entries.nth(i);
            proof {
                assert(self@.metadata.contains_key(entry.0@));
                assert(self@.metadata[entry.0@] == entry.1@);
                assert(entry.1@.file_id == entry.0@);
            }
            out.push(&entry.1);
            i += 1;
        }
        proof {
            assert forall|k: Seq<char>|
                self@.metadata.contains_key(k) implies exists|a: int|
                0 <= a < out@.len() && out@[a]@ == self@.metadata[k] by {
                self.tracker.entries.lemma_enumeration_complete(k);
                let j = choose|j: int|
                    0 <= j < self.tracker.entries.entries@.len()
                        && self.tracker.entries.entries@[j].0@ == k
                        && self.tracker.entries.entries@[j].1@ == self@.metadata[k];
                assert(out@[j]@ == self@.metadata[k]);
            }
        }
        out
    }

    /// The three record counts: the artifact total and each tier's
    /// share. The total always equals models plus scans, because every
    /// artifact has exactly one metadata entry and the tiers cannot
    /// share a key.
    pub fn get_stats(&self) -> (r: Stats)
        requires
            self.wf(),
        ensures
            r.models == self@.models.dom().len(),
            r.scans == self@.scans.dom().len(),
            r.total == self@.metadata.dom().len(),
            r.total == r.models + r.scans,
    {
        let r = Stats {
            total: self.tracker.len(),
            models: self.models.len(),
            scans: self.scans.len(),
        };
        proof {
            crate::store::lemma_map_of_len(self.models.entries@);
            crate::store::lemma_map_of_len(self.scans.entries@);
            crate::store::lemma_map_of_len(self.tracker.entries.entries@);
            let md = self@.models.dom();
            let sd = self@.scans.dom();
            assert(self@.metadata.dom() =~= md + sd);
            assert(md.disjoint(sd)) by {
                assert forall|k: Seq<char>| md.contains(k) implies !sd.contains(k) by {
                    assert(self@.models.contains_key(k));
                    if self@.scans.contains_key(k) {
                        assert(k[0] == 'm' && k[0] == 's');
                    }
                }
            }
            lemma_set_disjoint_lens(md, sd);
        }
        r
    }

    /// The events emitted so far, oldest first.
    pub fn events(&self) -> (r: &Vec<Event>)
        requires
            self.wf(),
        ensures
            r@.len() == self@.events.len(),
            forall|i: int| 0 <= i < r@.len() ==> (#[trigger] r@[i]@) == self@.events[i],
    {
        &self.events
    }

    /// Hands the pending events, oldest first, to the caller — the
    /// runtime delivers them — and empties the log; the stores and the
    /// counter stay as they are.
    pub fn take_events(&mut self) -> (r: Vec<Event>)
        requires
            old(self).wf(),
        ensures
            final(self).wf(),
            r@.len() == old(self)@.events.len(),
            forall|i: int| 0 <= i < r@.len() ==> (#[trigger] r@[i]@) == old(self)@.events[i],
            final(self)@.events == Seq::<EventView>::empty(),
            final(self)@.models == old(self)@.models,
            final(self)@.scans == old(self)@.scans,
            final(self)@.metadata == old(self)@.metadata,
            final(self)@.next_serial == old(self)@.next_serial,
    {
        let mut out: Vec<Event> = Vec::new();
        core::mem::swap(&mut out, &mut self.events);
        proof {
            assert(self@.events =~= Seq::<EventView>::empty());
            lemma_wf_frame(old(self)@, self@);
        }
        out
    }
}

impl AppState {
    /// `upload_model` at the host clock's current time.
    pub fn upload_model_now(
        &mut self,
        name: String,
        description: String,
        model_type: String,
        version: String,
        payload: Vec<u8>,
        uploader: String,
        is_public: bool,
    ) -> (r: Result<String, StoreError>)
        requires
            old(self).wf(),
            old(self)@.next_serial < u64::MAX,
        ensures
            final(self).wf(),
            match r {
                Ok(id) => payload@.len() <= MODEL_MAX_BYTES && exists|t: u64|
                    model_uploaded(
                        old(self)@,
                        final(self)@,
                        id@,
                        name@,
                        description@,
                        model_type@,
                        version@,
                        payload@,
                        uploader@,
                        is_public,
                        t,
                    ),
                Err(e) => payload@.len() > MODEL_MAX_BYTES && e@ == StoreErrorView::FileTooLarge(
                    payload@.len() as u64,
                ) && final(self)@ == old(self)@,
            },
    {
        let now = time_now();
        let r = self.upload_model(
            name,
            description,
            model_type,
            version,
            payload,
            uploader,
            is_public,
            now,
        );
        r
    }

    /// `upload_scan` at the host clock's current time.
    pub fn upload_scan_now(
        &mut self,
        patient_id: String,
        scan_type: String,
        body_part: String,
        payload: Vec<u8>,
        uploader: String,
    ) -> (r: Result<String, StoreError>)
        requires
            old(self).wf(),
            old(self)@.next_serial < u64::MAX,
        ensures
            final(self).wf(),
            match r {
                Ok(id) => payload@.len() <= SCAN_MAX_BYTES && exists|t: u64|
                    scan_uploaded(
                        old(self)@,
                        final(self)@,
                        id@,
                        patient_id@,
                        scan_type@,
                        body_part@,
                        payload@,
                        uploader@,
                        t,
                    ),
                Err(e) => payload@.len() > SCAN_MAX_BYTES && e@ == StoreErrorView::FileTooLarge(
                    payload@.len() as u64,
                ) && final(self)@ == old(self)@,
            },
    {
        let now = time_now();
        let r = self.upload_scan(patient_id, scan_type, body_part, payload, uploader, now);
        r
    }

    /// `download_model` at the host clock's current time.
    pub fn download_model_now(&mut self, id: &String, downloader: String) -> (r: Result<
        ModelRecord,
        StoreError,
    >)
        requires
            old(self).wf(),
            old(self)@.metadata.contains_key(id@) ==> old(self)@.metadata[id@].access_count
                < u64::MAX,
        ensures
            final(self).wf(),
            match r {
                Ok(m) => old(self)@.models.contains_key(id@) && m@ == old(self)@.models[id@]
                    && exists|t: u64|
                    model_downloaded(old(self)@, final(self)@, id@, downloader@, t),
                Err(e) => !old(self)@.models.contains_key(id@) && e@
                    == StoreErrorView::FileNotFound(id@) && final(self)@ == old(self)@,
            },
    {
        let now = time_now();
        let r = self.download_model(id, downloader, now);
        r
    }

    /// `download_scan` at the host clock's current time.
    pub fn download_scan_now(&mut self, id: &String, downloader: String) -> (r: Result<
        ScanRecord,
        StoreError,
    >)
        requires
            old(self).wf(),
            old(self)@.metadata.contains_key(id@) ==> old(self)@.metadata[id@].access_count
                < u64::MAX,
        ensures
            final(self).wf(),
            match r {
                Ok(s) => old(self)@.scans.contains_key(id@) && s@ == old(self)@.scans[id@]
                    && exists|t: u64|
                    scan_downloaded(old(self)@, final(self)@, id@, downloader@, t),
                Err(e) => !old(self)@.scans.contains_key(id@) && e@
                    == StoreErrorView::FileNotFound(id@) && final(self)@ == old(self)@,
            },
    {
        let now = time_now();
        let r = self.download_scan(id, downloader, now);
        r
    }

    /// `add_annotation` at the host clock's current time.
    pub fn add_annotation_now(&mut self, scan_key: &String, label: String) -> (r: Result<
        String,
        StoreError,
    >)
        requires
            old(self).wf(),
            old(self)@.next_serial < u64::MAX,
            old(self)@.scans.contains_key(scan_key@) ==> old(self)@.scans[
                scan_key@
            ].annotation_count < u64::MAX,
        ensures
            final(self).wf(),
            match r {
                Ok(aid) => old(self)@.scans.contains_key(scan_key@) && exists|t: u64|
                    annotation_added(old(self)@, final(self)@, scan_key@, aid@, t),
                Err(e) => !old(self)@.scans.contains_key(scan_key@) && e@
                    == StoreErrorView::FileNotFound(scan_key@) && final(self)@ == old(self)@,
            },
    {
        let now = time_now();
        let r = self.add_annotation(scan_key, label, now);
        r
    }
}

/// The record counts `get_stats` reports.
#[derive(Clone, Copy, PartialEq, Eq, Structural)]
pub struct Stats {
    pub total: usize,
    pub models: usize,
    pub scans: usize,
}

/// The text form of a stats report.
pub open spec fn spec_summary(total: nat, models: nat, scans: nat) -> Seq<char> {
    "total="@ + crate::ids::dec_digits(total) + " models="@ + crate::ids::dec_digits(models)
        + " scans="@ + crate::ids::dec_digits(scans)
}

impl Stats {
    /// Renders the three counts as one line of text.
    pub fn summary(&self) -> (r: String)
        ensures
            r@ == spec_summary(self.total as nat, self.models as nat, self.scans as nat),
    {
        let mut s = String::from_str("total=");
        let t = crate::ids::dec_string(self.total as u64);
        s.append(t.as_str());
        s.append(" models=");
        let m = crate::ids::dec_string(self.models as u64);
        s.append(m.as_str());
        s.append(" scans=");
        let c = crate::ids::dec_string(self.scans as u64);
        s.append(c.as_str());
        s
    }
}

} // verus!
