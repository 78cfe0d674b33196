//! Error kinds of a run, and the outside failures they arise from.

use vstd::prelude::*;

verus! {

/// The kind of failure that ended a run.
#[derive(Debug, Clone, Copy, PartialEq, Eq, Structural)]
pub enum Error {
    /// The URL does not name a document, or its identifier is no valid number.
    InvalidUrl,
    /// A local directory or file could not be created, read or written, or
    /// the target path has no parent directory.
    IoError,
    /// A remote call failed in transport, or its response could not be decoded.
    HttpError,
    /// The bytes stored for a page are no valid image.
    ImageError,
    /// The output document could not be serialized or written.
    PdfError,
}

/// What went wrong outside the library while an action was performed.
#[derive(Debug, Clone, Copy, PartialEq, Eq, Structural)]
pub enum Fault {
    /// The network request could not be completed.
    Transport,
    /// The response body did not have the expected structure.
    Decode,
    /// A directory or file operation failed.
    Storage,
    /// The target path has no parent directory.
    MissingParent,
    /// A page image could not be decoded.
    Image,
    /// The output document could not be serialized.
    Serialize,
}

/// The error kind under which a fault is reported.
pub open spec fn error_of(fault: Fault) -> Error {
    match fault {
        Fault::Transport | Fault::Decode => Error::HttpError,
        Fault::Storage | Fault::MissingParent => Error::IoError,
        Fault::Image => Error::ImageError,
        Fault::Serialize => Error::PdfError,
    }
}

impl Fault {
    /// Classifies the fault: network and decoding faults are HTTP errors,
    /// file system faults are I/O errors.
    pub fn error(self) -> (kind: Error)
        ensures
            kind == error_of(self),
    {
        match self {
            Fault::Transport => Error::HttpError,
            Fault::Decode => Error::HttpError,
            Fault::Storage => Error::IoError,
            Fault::MissingParent => Error::IoError,
            Fault::Image => Error::ImageError,
            Fault::Serialize => Error::PdfError,
        }
    }
}

} // verus!
