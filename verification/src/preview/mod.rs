//! What the preview tab loaded of a file.
use vstd::prelude::*;

verus! {

/// A moment of the system clock, as the file system reports it.
#[verifier::external_type_specification]
#[verifier::external_body]
pub struct ExSystemTime(std::time::SystemTime);

#[derive(Debug, Clone, PartialEq, Eq)]
pub struct PreviewLoadResult {
    pub lines: Vec<String>,
    pub truncated: bool,
    pub oversize: bool,
    pub binary: bool,
    pub lossy_utf8: bool,
    pub file_size: u64,
    pub modified_at: Option<std::time::SystemTime>,
    pub error: Option<String>,
}

impl PreviewLoadResult {
    /// A failed load with `message`.
    pub fn error(message: String) -> (r: Self)
        ensures
            r.lines@.len() == 0,
            !r.truncated,
            !r.oversize,
            !r.binary,
            !r.lossy_utf8,
            r.file_size == 0,
            r.modified_at is None,
            r.error == Some(message),
    {
        PreviewLoadResult {
            lines: Vec::new(),
            truncated: false,
            oversize: false,
            binary: false,
            lossy_utf8: false,
            file_size: 0,
            modified_at: None,
            error: Some(message),
        }
    }
}

} // verus!
