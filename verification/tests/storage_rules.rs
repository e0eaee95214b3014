use nano_image_server::storage::after_exists_check;
use nano_image_server::storage::after_remove;
use nano_image_server::storage::validate_filename;
use nano_image_server::storage::FsError;

fn refused(name: &str) -> Result<(), FsError> {
    Err(FsError::InvalidName(name.to_string()))
}

#[test]
fn plain_names_are_accepted() {
    for name in ["cat.png", "a", "", ".", ".hidden", "a.b.c", "dir/cat.png", "a./.b", "caf\u{e9}.png"]
    {
        assert_eq!(validate_filename(name), Ok(()), "{name}");
    }
}

#[test]
fn names_that_escape_are_refused() {
    for name in ["..", "../cat.png", "a/../b", "cat..png", "a..", "/etc/passwd", "/", "/..", "..."]
    {
        assert_eq!(validate_filename(name), refused(name), "{name}");
    }
}

#[test]
fn deletion_goes_on_only_for_a_file_that_is_there() {
    assert_eq!(after_exists_check("a.png", Some(true)), Ok(()));
    assert_eq!(
        after_exists_check("a.png", Some(false)),
        Err(FsError::ReadError("a.png".to_string()))
    );
    assert_eq!(after_exists_check("a.png", None), Err(FsError::ReadError("a.png".to_string())));
}

#[test]
fn failed_removal_is_a_delete_error() {
    assert_eq!(after_remove("a.png", true), Ok(()));
    assert_eq!(after_remove("a.png", false), Err(FsError::DeleteError("a.png".to_string())));
}
