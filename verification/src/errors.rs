//! The classified failures an operation can surface. No recovery happens
//! inside the engine: every failure aborts its operation before any
//! mutation and is returned to the caller unchanged.

use vstd::prelude::*;

verus! {

/// Why an operation was refused.
#[derive(Debug)]
pub enum StoreError {
    /// The record a download or annotation asked for is absent.
    FileNotFound(String),
    /// `delete_file` was called with a type other than "model" or "scan".
    InvalidFileType(String),
    /// An upload payload exceeds its tier's size ceiling; carries the
    /// actual payload size in bytes.
    FileTooLarge(u64),
    /// Reserved for access-control enforcement; no operation raises it,
    /// since caller identity is accepted but not checked.
    Unauthorized(String),
    /// Reserved for annotation content validation; not enforced.
    InvalidAnnotation,
}

pub enum StoreErrorView {
    FileNotFound(Seq<char>),
    InvalidFileType(Seq<char>),
    FileTooLarge(u64),
    Unauthorized(Seq<char>),
    InvalidAnnotation,
}

impl View for StoreError {
    type V = StoreErrorView;

    open spec fn view(&self) -> StoreErrorView {
        match self {
            StoreError::FileNotFound(id) => StoreErrorView::FileNotFound(id@),
            StoreError::InvalidFileType(t) => StoreErrorView::InvalidFileType(t@),
            StoreError::FileTooLarge(n) => StoreErrorView::FileTooLarge(*n),
            StoreError::Unauthorized(id) => StoreErrorView::Unauthorized(id@),
            StoreError::InvalidAnnotation => StoreErrorView::InvalidAnnotation,
        }
    }
}

} // verus!
