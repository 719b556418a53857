//! The failures an invocation can end in.

use vstd::prelude::*;

verus! {

/// Why an invocation was abandoned. Every failure is fatal: the first one
/// ends the invocation before any further output is produced.
#[derive(Clone, Copy, Debug, PartialEq, Eq, Structural)]
pub enum ViewError {
    /// The path is missing or cannot be read.
    FileOpen,
    /// The reader could not decode the file.
    FormatDecode,
    /// A row count that is not a non-negative integer, or an unknown format.
    InvalidArgument,
    /// The schema renderer produced bytes that are not text.
    Encoding,
}

/// The sentence that tells the user of a failure of kind `e`.
pub open spec fn failure_text(e: ViewError) -> Seq<char> {
    match e {
        ViewError::FileOpen => "the file is missing or cannot be read"@,
        ViewError::FormatDecode => "the file cannot be decoded"@,
        ViewError::InvalidArgument => "an argument is malformed"@,
        ViewError::Encoding => "the rendered schema is not text"@,
    }
}

/// The process status that every failure ends in.
pub const FAILURE_STATUS: i32 = 1;

impl ViewError {
    /// The status the process ends with after this failure: the same for
    /// every kind, and never the status of success.
    pub fn exit_status(&self) -> (status: i32)
        ensures
            status == FAILURE_STATUS,
            status != 0,
    {
        FAILURE_STATUS
    }

    /// The sentence that tells the user of this failure.
    pub fn message(&self) -> (out: String)
        ensures
            out@ == failure_text(*self),
    {
        match self {
            ViewError::FileOpen => "the file is missing or cannot be read".to_owned(),
            ViewError::FormatDecode => "the file cannot be decoded".to_owned(),
            ViewError::InvalidArgument => "an argument is malformed".to_owned(),
            ViewError::Encoding => "the rendered schema is not text".to_owned(),
        }
    }
}

} // verus!
