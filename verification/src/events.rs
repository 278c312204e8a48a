//! Typed notifications describing completed state changes. The service
//! appends one to its event log for every mutation, in emission order;
//! delivering them to observers is the surrounding runtime's concern.

use vstd::prelude::*;

verus! {

/// A completed state change, as delivered to observers.
pub enum Event {
    ModelUploaded { model_id: String, name: String },
    ScanUploaded { scan_id: String, patient_id: String },
    ModelDownloaded { model_id: String, downloader: String },
    ScanDownloaded { scan_id: String, downloader: String },
    AnnotationAdded { scan_id: String, annotation_id: String },
    FileDeleted { file_id: String, file_type: String },
}

pub enum EventView {
    ModelUploaded { model_id: Seq<char>, name: Seq<char> },
    ScanUploaded { scan_id: Seq<char>, patient_id: Seq<char> },
    ModelDownloaded { model_id: Seq<char>, downloader: Seq<char> },
    ScanDownloaded { scan_id: Seq<char>, downloader: Seq<char> },
    AnnotationAdded { scan_id: Seq<char>, annotation_id: Seq<char> },
    FileDeleted { file_id: Seq<char>, file_type: Seq<char> },
}

impl View for Event {
    type V = EventView;

    open spec fn view(&self) -> EventView {
        match self {
            Event::ModelUploaded { model_id, name } => EventView::ModelUploaded {
                model_id: model_id@,
                name: name@,
            },
            Event::ScanUploaded { scan_id, patient_id } => EventView::ScanUploaded {
                scan_id: scan_id@,
                patient_id: patient_id@,
            },
            Event::ModelDownloaded { model_id, downloader } => EventView::ModelDownloaded {
                model_id: model_id@,
                downloader: downloader@,
            },
            Event::ScanDownloaded { scan_id, downloader } => EventView::ScanDownloaded {
                scan_id: scan_id@,
                downloader: downloader@,
            },
            Event::AnnotationAdded { scan_id, annotation_id } => EventView::AnnotationAdded {
                scan_id: scan_id@,
                annotation_id: annotation_id@,
            },
            Event::FileDeleted { file_id, file_type } => EventView::FileDeleted {
                file_id: file_id@,
                file_type: file_type@,
            },
        }
    }
}

} // verus!
