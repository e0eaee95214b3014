use vstd::prelude::*;
use vstd::string::StringExecFns;

verus! {

/// What can go wrong while an image is served.
#[derive(Debug, PartialEq, Eq)]
pub enum ImageServerError {
    /// No image at the given path.
    NotFound { path: String },
    /// A file could not be read; the text is that of the I/O error.
    IoError(String),
    /// The image format is not recognised or not supported.
    InvalidFormat,
    /// The image could not be decoded.
    DecodeError(String),
    /// The image could not be encoded.
    EncodeError(String),
    /// An operation on the image failed.
    ProcessingError(String),
    /// The processing parameters make no sense.
    InvalidParameters(String),
    /// The cache failed.
    CacheError(String),
    /// The TLS configuration is at fault.
    TlsError(String),
    /// Anything else.
    Internal(String),
}

impl ImageServerError {
    /// The HTTP status code that answers a request which met this error:
    /// 404 for a missing image, 400 for what the client got wrong, 500 for
    /// the rest.
    pub open spec fn spec_status_code(&self) -> u16 {
        match self {
            ImageServerError::NotFound { .. } => 404,
            ImageServerError::InvalidFormat => 400,
            ImageServerError::DecodeError(_) => 400,
            ImageServerError::InvalidParameters(_) => 400,
            ImageServerError::EncodeError(_) => 500,
            ImageServerError::ProcessingError(_) => 500,
            ImageServerError::CacheError(_) => 500,
            ImageServerError::IoError(_) => 500,
            ImageServerError::TlsError(_) => 500,
            ImageServerError::Internal(_) => 500,
        }
    }

    /// The HTTP status code that answers a request which met this error.
    pub fn status_code(&self) -> (code: u16)
        ensures
            code == self.spec_status_code(),
            code == 404 || code == 400 || code == 500,
    {
        match self {
            ImageServerError::NotFound { .. } => 404,
            ImageServerError::InvalidFormat => 400,
            ImageServerError::DecodeError(_) => 400,
            ImageServerError::InvalidParameters(_) => 400,
            ImageServerError::EncodeError(_) => 500,
            ImageServerError::ProcessingError(_) => 500,
            ImageServerError::CacheError(_) => 500,
            ImageServerError::IoError(_) => 500,
            ImageServerError::TlsError(_) => 500,
            ImageServerError::Internal(_) => 500,
        }
    }

    /// The text shown to the client: it names the kind of the error and
    /// keeps the details to the server.
    pub open spec fn spec_user_message(&self) -> Seq<char> {
        match self {
            ImageServerError::NotFound { .. } => "Image not found"@,
            ImageServerError::InvalidFormat => "Invalid or unsupported image format"@,
            ImageServerError::DecodeError(_) => "Failed to decode image"@,
            ImageServerError::InvalidParameters(_) => "Invalid image processing parameters"@,
            _ => "Internal server error"@,
        }
    }

    /// The text shown to the client.
    pub fn user_message(&self) -> (text: String)
        ensures
            text@ == self.spec_user_message(),
    {
        match self {
            ImageServerError::NotFound { .. } => String::from_str("Image not found"),
            ImageServerError::InvalidFormat => String::from_str(
                "Invalid or unsupported image format",
            ),
            ImageServerError::DecodeError(_) => String::from_str("Failed to decode image"),
            ImageServerError::InvalidParameters(_) => String::from_str(
                "Invalid image processing parameters",
            ),
            _ => String::from_str("Internal server error"),
        }
    }

    /// The full text of the error, details included, as it goes to the log.
    pub open spec fn spec_message(&self) -> Seq<char> {
        match self {
            ImageServerError::NotFound { path } => "image not found: "@ + path@,
            ImageServerError::IoError(detail) => "failed to read file: "@ + detail@,
            ImageServerError::InvalidFormat => "unsupported or invalid image format"@,
            ImageServerError::DecodeError(detail) => "failed to decode image: "@ + detail@,
            ImageServerError::EncodeError(detail) => "failed to encode image: "@ + detail@,
            ImageServerError::ProcessingError(detail) => "image processing failed: "@ + detail@,
            ImageServerError::InvalidParameters(detail) => "invalid processing parameters: "@
                + detail@,
            ImageServerError::CacheError(detail) => "cache error: "@ + detail@,
            ImageServerError::TlsError(detail) => "TLS configuration error: "@ + detail@,
            ImageServerError::Internal(detail) => "internal server error: "@ + detail@,
        }
    }

    /// The full text of the error, details included.
    pub fn message(&self) -> (text: String)
        ensures
            text@ == self.spec_message(),
    {
        match self {
            ImageServerError::NotFound { path } => String::from_str("image not found: ").concat(
                path.as_str(),
            ),
            ImageServerError::IoError(detail) => String::from_str("failed to read file: ").concat(
                detail.as_str(),
            ),
            ImageServerError::InvalidFormat => String::from_str(
                "unsupported or invalid image format",
            ),
            ImageServerError::DecodeError(detail) => String::from_str(
                "failed to decode image: ",
            ).concat(detail.as_str()),
            ImageServerError::EncodeError(detail) => String::from_str(
                "failed to encode image: ",
            ).concat(detail.as_str()),
            ImageServerError::ProcessingError(detail) => String::from_str(
                "image processing failed: ",
            ).concat(detail.as_str()),
            ImageServerError::InvalidParameters(detail) => String::from_str(
                "invalid processing parameters: ",
            ).concat(detail.as_str()),
            ImageServerError::CacheError(detail) => String::from_str("cache error: ").concat(
                detail.as_str(),
            ),
            ImageServerError::TlsError(detail) => String::from_str(
                "TLS configuration error: ",
            ).concat(detail.as_str()),
            ImageServerError::Internal(detail) => String::from_str(
                "internal server error: ",
            ).concat(detail.as_str()),
        }
    }
}

} // verus!
