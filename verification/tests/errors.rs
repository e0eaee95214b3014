use nano_image_server::error::ImageServerError;
use nano_image_server::security::AuthError;
use nano_image_server::storage::CacheError;
use nano_image_server::storage::FsError;

fn every_error() -> Vec<(ImageServerError, u16, &'static str, &'static str)> {
    let detail = || "boom".to_string();
    vec![
        (
            ImageServerError::NotFound { path: "a/b.png".to_string() },
            404,
            "Image not found",
            "image not found: a/b.png",
        ),
        (
            ImageServerError::IoError(detail()),
            500,
            "Internal server error",
            "failed to read file: boom",
        ),
        (
            ImageServerError::InvalidFormat,
            400,
            "Invalid or unsupported image format",
            "unsupported or invalid image format",
        ),
        (
            ImageServerError::DecodeError(detail()),
            400,
            "Failed to decode image",
            "failed to decode image: boom",
        ),
        (
            ImageServerError::EncodeError(detail()),
            500,
            "Internal server error",
            "failed to encode image: boom",
        ),
        (
            ImageServerError::ProcessingError(detail()),
            500,
            "Internal server error",
            "image processing failed: boom",
        ),
        (
            ImageServerError::InvalidParameters(detail()),
            400,
            "Invalid image processing parameters",
            "invalid processing parameters: boom",
        ),
        (
            ImageServerError::CacheError(detail()),
            500,
            "Internal server error",
            "cache error: boom",
        ),
        (
            ImageServerError::TlsError(detail()),
            500,
            "Internal server error",
            "TLS configuration error: boom",
        ),
        (
            ImageServerError::Internal(detail()),
            500,
            "Internal server error",
            "internal server error: boom",
        ),
    ]
}

#[test]
fn status_code_of_every_error() {
    for (error, code, _, _) in every_error() {
        assert_eq!(error.status_code(), code, "{:?}", error);
    }
}

#[test]
fn user_message_of_every_error() {
    for (error, _, shown, _) in every_error() {
        assert_eq!(error.user_message(), shown, "{:?}", error);
    }
}

#[test]
fn full_message_of_every_error() {
    for (error, _, _, logged) in every_error() {
        assert_eq!(error.message(), logged, "{:?}", error);
    }
}

#[test]
fn auth_error_messages() {
    assert_eq!(AuthError::EncodingError.message(), "Unable to Encode");
    assert_eq!(AuthError::DecodingError.message(), "Unable to Decode");
    assert_eq!(AuthError::InvalidTokenError.message(), "Invalid Token");
    assert_eq!(AuthError::Unknown.message(), "Unknown Security error");
}

#[test]
fn fs_error_messages() {
    assert_eq!(FsError::Unknown.message(), "Unknown File System error");
    assert_eq!(
        FsError::ReadError("a.png".to_string()).message(),
        "Read Error for file with name : `a.png`. The file may not exist."
    );
    assert_eq!(
        FsError::WriteError("a.png".to_string()).message(),
        "Write Error for file with name : `a.png`"
    );
    assert_eq!(
        FsError::DeleteError("a.png".to_string()).message(),
        "Deletion Error for file with name : `a.png`"
    );
    assert_eq!(
        FsError::InvalidName("../a".to_string()).message(),
        "Invalid image name. Name cannot contain '.' and '/' : `../a`"
    );
}

#[test]
fn cache_error_messages() {
    assert_eq!(
        CacheError::CacheNotFound("gone".to_string()).message(),
        "Cache missing. Maybe the memory limit was hit ?."
    );
    assert_eq!(
        CacheError::InsertionError(42).message(),
        "Unable to insert Image Stream for key `42`"
    );
    assert_eq!(
        CacheError::KeyNotFound(18446744073709551615).message(),
        "Unable to find Image Stream for key `18446744073709551615`"
    );
    assert_eq!(CacheError::KeyNotFound(0).message(), "Unable to find Image Stream for key `0`");
    assert_eq!(CacheError::Unknown.message(), "Unknown Caching error");
}
