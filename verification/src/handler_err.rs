//! Error kinds a request can end with, and the status code each maps to.

use vstd::prelude::*;

use crate::file_type::FileType;

verus! {

/// Everything that can abort an upload or a read request.  Failures of the
/// graceful kind (a regex that does not compile, a directory that cannot be
/// created) never surface here: they degrade to "no persistence" instead.
#[derive(Debug)]
pub enum HandlerError {
    /// An infrastructure failure with no more precise kind.
    InternalError,
    /// The requested image file could not be found or read.
    CouldntOpenImageFile,
    /// The written bytes passed the type gate but the decoder rejected them.
    FailedToLoadImage,
    /// Image hosting is disabled.
    ImageHostingDisabled,
    /// The requested path escapes the configured directory.
    FilePathNotAllowed(String),
    /// The requested path could not be interpreted.
    InvalidPath,
    /// No image exists at the requested path.
    ImageDoesNotExist(String),
    /// Mapping an error to a response itself failed.
    ErrorHandlerFailed,
    /// The upload's cumulative size passed the configured limit: the size
    /// the upload reached, and the limit it passed.
    FileTooLarge(u64, u64),
    /// The reconciled verdict was not an image; carries that verdict.
    FileWasNotAnImage(FileType),
    /// A chunk of the multipart field could not be read.
    FieldReadError { field_name: String, cause: String },
    /// Writing the upload to its destination failed.
    FailedToWriteImage,
    /// The decoded image could not be placed on the clipboard.
    ClipboardFailed,
}

/// The HTTP status code an error kind maps to.
pub open spec fn status_code_v(e: &HandlerError) -> u16 {
    match e {
        HandlerError::InternalError => 500,
        HandlerError::CouldntOpenImageFile => 404,
        HandlerError::FailedToLoadImage => 500,
        HandlerError::ImageHostingDisabled => 403,
        HandlerError::FilePathNotAllowed(_) => 403,
        HandlerError::InvalidPath => 500,
        HandlerError::ImageDoesNotExist(_) => 404,
        HandlerError::ErrorHandlerFailed => 418,
        HandlerError::FileTooLarge(_, _) => 413,
        HandlerError::FileWasNotAnImage(_) => 400,
        HandlerError::FieldReadError { .. } => 500,
        HandlerError::FailedToWriteImage => 500,
        HandlerError::ClipboardFailed => 500,
    }
}

impl HandlerError {
    /// The HTTP status code this error maps to.
    pub fn status_code(&self) -> (r: u16)
        ensures
            r == status_code_v(self),
    {
        match self {
            HandlerError::InternalError => 500,
            HandlerError::CouldntOpenImageFile => 404,
            HandlerError::FailedToLoadImage => 500,
            HandlerError::ImageHostingDisabled => 403,
            HandlerError::FilePathNotAllowed(_) => 403,
            HandlerError::InvalidPath => 500,
            HandlerError::ImageDoesNotExist(_) => 404,
            HandlerError::ErrorHandlerFailed => 418,
            HandlerError::FileTooLarge(_, _) => 413,
            HandlerError::FileWasNotAnImage(_) => 400,
            HandlerError::FieldReadError { .. } => 500,
            HandlerError::FailedToWriteImage => 500,
            HandlerError::ClipboardFailed => 500,
        }
    }
}

} // verus!
