use vstd::prelude::*;
use vstd::string::StringExecFns;
use crate::text::chars_of;
use crate::text::decimal;

verus! {

/// What can go wrong with the files of the image store. Each error but the
/// first names the file.
#[derive(Debug, PartialEq, Eq)]
pub enum FsError {
    Unknown,
    ReadError(String),
    WriteError(String),
    DeleteError(String),
    InvalidName(String),
}

impl FsError {
    /// The text of the error.
    pub open spec fn spec_message(&self) -> Seq<char> {
        match self {
            FsError::Unknown => "Unknown File System error"@,
            FsError::ReadError(name) => "Read Error for file with name : `"@ + name@
                + "`. The file may not exist."@,
            FsError::WriteError(name) => "Write Error for file with name : `"@ + name@ + "`"@,
            FsError::DeleteError(name) => "Deletion Error for file with name : `"@ + name@ + "`"@,
            FsError::InvalidName(name) => "Invalid image name. Name cannot contain '.' and '/' : `"@
                + name@ + "`"@,
        }
    }

    /// The text of the error.
    pub fn message(&self) -> (text: String)
        ensures
            text@ == self.spec_message(),
    {
        match self {
            FsError::Unknown => String::from_str("Unknown File System error"),
            FsError::ReadError(name) => String::from_str(
                "Read Error for file with name : `",
            ).concat(name.as_str()).concat("`. The file may not exist."),
            FsError::WriteError(name) => String::from_str(
                "Write Error for file with name : `",
            ).concat(name.as_str()).concat("`"),
            FsError::DeleteError(name) => String::from_str(
                "Deletion Error for file with name : `",
            ).concat(name.as_str()).concat("`"),
            FsError::InvalidName(name) => String::from_str(
                "Invalid image name. Name cannot contain '.' and '/' : `",
            ).concat(name.as_str()).concat("`"),
        }
    }
}

/// What can go wrong with the in-memory store of encoded images.
#[derive(Debug, PartialEq, Eq)]
pub enum CacheError {
    /// The store itself is gone; the text is that of the I/O error.
    CacheNotFound(String),
    InsertionError(u64),
    KeyNotFound(u64),
    Unknown,
}

impl CacheError {
    /// The text of the error.
    pub open spec fn spec_message(&self) -> Seq<char> {
        match self {
            CacheError::CacheNotFound(_) => "Cache missing. Maybe the memory limit was hit ?."@,
            CacheError::InsertionError(key) => "Unable to insert Image Stream for key `"@
                + crate::text::spec_decimal(*key as int) + "`"@,
            CacheError::KeyNotFound(key) => "Unable to find Image Stream for key `"@
                + crate::text::spec_decimal(*key as int) + "`"@,
            CacheError::Unknown => "Unknown Caching error"@,
        }
    }

    /// The text of the error.
    pub fn message(&self) -> (text: String)
        ensures
            text@ == self.spec_message(),
    {
        match self {
            CacheError::CacheNotFound(_) => String::from_str(
                "Cache missing. Maybe the memory limit was hit ?.",
            ),
            CacheError::InsertionError(key) => String::from_str(
                "Unable to insert Image Stream for key `",
            ).concat(decimal(*key as i128).as_str()).concat("`"),
            CacheError::KeyNotFound(key) => String::from_str(
                "Unable to find Image Stream for key `",
            ).concat(decimal(*key as i128).as_str()).concat("`"),
            CacheError::Unknown => String::from_str("Unknown Caching error"),
        }
    }
}

/// `name` holds two dots in a row somewhere.
pub open spec fn has_dot_dot(name: Seq<char>) -> bool {
    exists|i: int| 0 <= i && i + 1 < name.len() && name[i] == '.' && #[trigger] name[i + 1] == '.'
}

/// A file name that could lead out of the image directory: it holds ".."
/// or begins with '/'.
pub open spec fn escapes(name: Seq<char>) -> bool {
    has_dot_dot(name) || (name.len() > 0 && name[0] == '/')
}

/// Accepts a file name unless it could lead out of the image directory.
pub fn validate_filename(name: &str) -> (verdict: Result<(), FsError>)
    ensures
        match verdict {
            Ok(_) => !escapes(name@),
            Err(e) => escapes(name@) && (e matches FsError::InvalidName(refused) && refused@
                == name@),
        },
{
    let chars = chars_of(name);
    if chars.len() > 0 && chars[0] == '/' {
        return Err(FsError::InvalidName(String::from_str(name)));
    }
    let mut i: usize = 1;
    while i < chars.len()
        invariant
            1 <= i,
            chars@ == name@,
            forall|j: int|
                0 <= j && j + 1 < i ==> !(chars@[j] == '.' && #[trigger] chars@[j + 1] == '.'),
        decreases chars.len() - i,
    {
        if chars[i - 1] == '.' && chars[i] == '.' {
            assert(has_dot_dot(name@)) by {
                let at = i - 1;
                assert(name@[at] == '.' && name@[at + 1] == '.');
            }
            return Err(FsError::InvalidName(String::from_str(name)));
        }
        i += 1;
    }
    Ok(())
}

/// What follows the check whether the file to delete exists: the deletion
/// goes on only if the check came back and said yes. `exists` is `None`
/// where the check itself failed.
pub fn after_exists_check(name: &str, exists: Option<bool>) -> (go_on: Result<(), FsError>)
    ensures
        match go_on {
            Ok(_) => exists == Some(true),
            Err(e) => exists != Some(true) && (e matches FsError::ReadError(missing) && missing@
                == name@),
        },
{
    match exists {
        Some(true) => Ok(()),
        _ => Err(FsError::ReadError(String::from_str(name))),
    }
}

/// What the removal of the file comes to.
pub fn after_remove(name: &str, removed: bool) -> (done: Result<(), FsError>)
    ensures
        match done {
            Ok(_) => removed,
            Err(e) => !removed && (e matches FsError::DeleteError(kept) && kept@ == name@),
        },
{
    if removed {
        Ok(())
    } else {
        Err(FsError::DeleteError(String::from_str(name)))
    }
}

} // verus!
