//! The failures that the library's operations report.

use vstd::prelude::*;

verus! {

/// Why an operation on a weapon script or a crosshair texture failed.
#[derive(Clone, Copy, Debug, PartialEq, Eq, Structural)]
pub enum Error {
    /// The file or directory is absent, or the path names no file.
    NotFound,
    /// The file could not be read or written.
    IoError,
    /// A recognised key line holds no value, or a `"crosshair"` block holds
    /// no `"file"` line.
    MalformedField,
    /// An explosion-capable weapon whose script has no `"ExplosionEffect"`
    /// line.
    MissingRequiredField,
    /// An explosion effect was to be written for a weapon that has none.
    UnsupportedOperation,
    /// The texture container is malformed, or its pixel encoding is not
    /// supported.
    DecodeError,
}

/// The description of a failure.
pub open spec fn error_text(e: Error) -> Seq<char> {
    match e {
        Error::NotFound => "file not found"@,
        Error::IoError => "failed to read or write the file"@,
        Error::MalformedField => "failed to get value"@,
        Error::MissingRequiredField => "expected an explosion type"@,
        Error::UnsupportedOperation => "weapon doesn't use explosions"@,
        Error::DecodeError => "failed to decode the texture"@,
    }
}

impl Error {
    /// A short description of the failure, for a log.
    pub fn to_str(&self) -> (r: &'static str)
        ensures
            r@ == error_text(*self),
    {
        match self {
            Error::NotFound => "file not found",
            Error::IoError => "failed to read or write the file",
            Error::MalformedField => "failed to get value",
            Error::MissingRequiredField => "expected an explosion type",
            Error::UnsupportedOperation => "weapon doesn't use explosions",
            Error::DecodeError => "failed to decode the texture",
        }
    }
}

} // verus!
