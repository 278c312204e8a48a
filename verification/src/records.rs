//! The record types of the store: artifacts (models and scans), the access
//! metadata paired with each artifact, and the free-standing model metadata
//! summary.

use vstd::prelude::*;

verus! {

/// A machine-learning model file, held in the shared (replicated) tier.
pub struct ModelRecord {
    pub id: String,
    pub name: String,
    pub description: String,
    pub model_type: String,
    pub version: String,
    /// Always the byte length of `payload`.
    pub file_size: u64,
    /// The artifact itself, treated as an opaque byte sequence.
    pub payload: Vec<u8>,
    pub uploader: String,
    pub created_at: u64,
    pub is_public: bool,
}

#[verifier::ext_equal]
pub struct ModelRecordView {
    pub id: Seq<char>,
    pub name: Seq<char>,
    pub description: Seq<char>,
    pub model_type: Seq<char>,
    pub version: Seq<char>,
    pub file_size: nat,
    pub payload: Seq<u8>,
    pub uploader: Seq<char>,
    pub created_at: u64,
    pub is_public: bool,
}

impl View for ModelRecord {
    type V = ModelRecordView;

    open spec fn view(&self) -> ModelRecordView {
        ModelRecordView {
            id: self.id@,
            name: self.name@,
            description: self.description@,
            model_type: self.model_type@,
            version: self.version@,
            file_size: self.file_size as nat,
            payload: self.payload@,
            uploader: self.uploader@,
            created_at: self.created_at,
            is_public: self.is_public,
        }
    }
}

impl Clone for ModelRecord {
    fn clone(&self) -> (r: Self)
        ensures
            r@ == self@,
    {
        let r = ModelRecord {
            id: self.id.clone(),
            name: self.name.clone(),
            description: self.description.clone(),
            model_type: self.model_type.clone(),
            version: self.version.clone(),
            file_size: self.file_size,
            payload: self.payload.clone(),
            uploader: self.uploader.clone(),
            created_at: self.created_at,
            is_public: self.is_public,
        };
        proof {
            assert(r@ =~= self@);
        }
        r
    }
}

/// An imaging scan file, held in the local (instance-private) tier.
pub struct ScanRecord {
    pub id: String,
    pub patient_id: String,
    pub scan_type: String,
    pub body_part: String,
    /// Always the byte length of `payload`.
    pub file_size: u64,
    pub payload: Vec<u8>,
    pub uploader: String,
    pub created_at: u64,
    /// Incremented by one on each added annotation, never decremented.
    pub annotation_count: u64,
}

#[verifier::ext_equal]
pub struct ScanRecordView {
    pub id: Seq<char>,
    pub patient_id: Seq<char>,
    pub scan_type: Seq<char>,
    pub body_part: Seq<char>,
    pub file_size: nat,
    pub payload: Seq<u8>,
    pub uploader: Seq<char>,
    pub created_at: u64,
    pub annotation_count: nat,
}

impl View for ScanRecord {
    type V = ScanRecordView;

    open spec fn view(&self) -> ScanRecordView {
        ScanRecordView {
            id: self.id@,
            patient_id: self.patient_id@,
            scan_type: self.scan_type@,
            body_part: self.body_part@,
            file_size: self.file_size as nat,
            payload: self.payload@,
            uploader: self.uploader@,
            created_at: self.created_at,
            annotation_count: self.annotation_count as nat,
        }
    }
}

impl Clone for ScanRecord {
    fn clone(&self) -> (r: Self)
        ensures
            r@ == self@,
    {
        let r = ScanRecord {
            id: self.id.clone(),
            patient_id: self.patient_id.clone(),
            scan_type: self.scan_type.clone(),
            body_part: self.body_part.clone(),
            file_size: self.file_size,
            payload: self.payload.clone(),
            uploader: self.uploader.clone(),
            created_at: self.created_at,
            annotation_count: self.annotation_count,
        };
        proof {
            assert(r@ =~= self@);
        }
        r
    }
}

/// The access-tracking entry paired one-to-one with a stored artifact.
pub struct FileMetadata {
    /// The identifier of the artifact this entry describes.
    pub file_id: String,
    /// "model" or "scan": which tier holds the artifact.
    pub file_type: String,
    /// How many counted accesses (downloads) the artifact has seen.
    pub access_count: u64,
    /// The timestamp of the last counted access, or of creation.
    pub last_accessed: u64,
    /// Free-form tags; kept free of duplicates by the tracker.
    pub tags: Vec<String>,
}

#[verifier::ext_equal]
pub struct FileMetadataView {
    pub file_id: Seq<char>,
    pub file_type: Seq<char>,
    pub access_count: nat,
    pub last_accessed: u64,
    pub tags: Seq<Seq<char>>,
}

impl View for FileMetadata {
    type V = FileMetadataView;

    open spec fn view(&self) -> FileMetadataView {
        FileMetadataView {
            file_id: self.file_id@,
            file_type: self.file_type@,
            access_count: self.access_count as nat,
            last_accessed: self.last_accessed,
            tags: Seq::new(self.tags@.len(), |i: int| self.tags@[i]@),
        }
    }
}

impl Clone for FileMetadata {
    fn clone(&self) -> (r: Self)
        ensures
            r@ == self@,
    {
        let mut tags: Vec<String> = Vec::new();
        let mut i: usize = 0;
        while i < self.tags.len()
            invariant
                i <= self.tags@.len(),
                tags@.len() == i,
                forall|j: int| 0 <= j < i ==> tags@[j]@ == self.tags@[j]@,
            decreases self.tags@.len() - i,
        {
            tags.push(self.tags[i].clone());
            i += 1;
        }
        let r = FileMetadata {
            file_id: self.file_id.clone(),
            file_type: self.file_type.clone(),
            access_count: self.access_count,
            last_accessed: self.last_accessed,
            tags,
        };
        proof {
            assert(r@.tags =~= self@.tags);
            assert(r@ =~= self@);
        }
        r
    }
}

/// A free-standing summary describing a model: its overall prediction
/// accuracy, when it was produced, and its free-form parameters.
pub struct ModelMetadata {
    /// Overall prediction accuracy, as an integer percentage.
    pub prediction_accuracy: u8,
    /// Unix timestamp of when the model was produced or uploaded.
    pub date: u64,
    /// Free-form model parameters.
    pub model_params: String,
}

#[verifier::ext_equal]
pub struct ModelMetadataView {
    pub prediction_accuracy: u8,
    pub date: u64,
    pub model_params: Seq<char>,
}

impl View for ModelMetadata {
    type V = ModelMetadataView;

    open spec fn view(&self) -> ModelMetadataView {
        ModelMetadataView {
            prediction_accuracy: self.prediction_accuracy,
            date: self.date,
            model_params: self.model_params@,
        }
    }
}

impl Clone for ModelMetadata {
    fn clone(&self) -> (r: Self)
        ensures
            r@ == self@,
    {
        let r = ModelMetadata {
            prediction_accuracy: self.prediction_accuracy,
            date: self.date,
            model_params: self.model_params.clone(),
        };
        proof {
            assert(r@ =~= self@);
        }
        r
    }
}

} // verus!
