//! The error kinds shared by every storage operation.

use vstd::prelude::*;

verus! {

/// What a configuration-storage operation can report when it does not succeed.
///
/// `FileError` stands for any underlying file-level failure (a missing file on
/// removal, a directory that was never created, and the like). `FieldMissing`
/// is kept apart from it so that callers can branch on "this field was never
/// written" without confusing it with a genuine I/O fault. `FromStrErr` means
/// the field's content was read in full but could not be converted to the
/// requested type.
#[derive(Debug, Clone, Copy, PartialEq, Eq, Structural)]
pub enum ConfigError {
    /// An operation on the underlying file failed.
    FileError,
    /// The requested field could not be found.
    FieldMissing,
    /// The field's content could not be converted to the desired type.
    FromStrErr,
}

impl ConfigError {
    /// A short description of the error, for callers that want to report it.
    pub fn describe(&self) -> (r: &'static str)
        ensures
            r@ == match self {
                ConfigError::FileError => "failed to perform an operation on the file"@,
                ConfigError::FieldMissing => "the requested field could not be found"@,
                ConfigError::FromStrErr => "failed to call from_str for the desired type"@,
            },
    {
        match self {
            ConfigError::FileError => "failed to perform an operation on the file",
            ConfigError::FieldMissing => "the requested field could not be found",
            ConfigError::FromStrErr => "failed to call from_str for the desired type",
        }
    }
}

} // verus!
