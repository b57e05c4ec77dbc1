//! The application's domain errors.

use vstd::prelude::*;
use crate::text::{concat_strs, decimal, push_decimal};

verus! {

/// `std::io::Error`, carried through as an opaque value.
#[verifier::external_type_specification]
#[verifier::external_body]
pub struct ExIoError(std::io::Error);

/// The kinds of I/O failure the application tells apart.
#[derive(Debug, Clone, Copy, PartialEq, Eq, Structural)]
pub enum IoFailure {
    NotFound,
    PermissionDenied,
    Other,
}

/// `std::io::Error::kind`, reduced to the kinds told apart here. Nothing is claimed
/// of the kind: it is whatever the error carries.
#[verifier::external_body]
fn io_failure_of(err: &std::io::Error) -> (r: IoFailure) {
    match err.kind() {
        std::io::ErrorKind::NotFound => IoFailure::NotFound,
        std::io::ErrorKind::PermissionDenied => IoFailure::PermissionDenied,
        _ => IoFailure::Other,
    }
}

/// `ToString::to_string` of an I/O error. Nothing is claimed of the text: it may
/// come from the operating system.
#[verifier::external_body]
fn io_error_text(err: &std::io::Error) -> (r: String) {
    err.to_string()
}

/// Domain errors of the application. Paths are held as their displayed text.
#[derive(Debug)]
pub enum GicError {
    Config(String),
    Logging(String),
    Terminal(String),
    Io(std::io::Error),
    FileNotFound(String),
    PermissionDenied(String),
    InvalidUtf8 { path: String, position: Option<usize>, message: String },
    FileTooLarge { path: String, size: u64, max_size: u64 },
    NoPathSpecified,
    FsIo { path: String, source: std::io::Error },
}

impl From<std::io::Error> for GicError {
    fn from(err: std::io::Error) -> (r: Self) {
        GicError::Io(err)
    }
}

impl vstd::std_specs::convert::FromSpecImpl<std::io::Error> for GicError {
    open spec fn obeys_from_spec() -> bool {
        true
    }

    open spec fn from_spec(err: std::io::Error) -> Self {
        GicError::Io(err)
    }
}

impl GicError {
    /// The error for an I/O failure of the given kind on `path`.
    pub fn from_io_failure(path: String, kind: IoFailure, err: std::io::Error) -> (r: Self)
        ensures
            r == (match kind {
                IoFailure::NotFound => GicError::FileNotFound(path),
                IoFailure::PermissionDenied => GicError::PermissionDenied(path),
                IoFailure::Other => GicError::FsIo { path, source: err },
            }),
    {
        match kind {
            IoFailure::NotFound => GicError::FileNotFound(path),
            IoFailure::PermissionDenied => GicError::PermissionDenied(path),
            IoFailure::Other => GicError::FsIo { path, source: err },
        }
    }

    /// Maps an I/O error on `path` to a domain error by the error's kind: not
    /// found, permission denied, or any other failure.
    pub fn from_io_error(path: String, err: std::io::Error) -> (r: Self)
        ensures
            r == GicError::FileNotFound(path) || r == GicError::PermissionDenied(path) || (
            r == GicError::FsIo { path, source: err }),
    {
        let kind = io_failure_of(&err);
        Self::from_io_failure(path, kind, err)
    }

    /// The human-readable message of this error. For the two variants holding an
    /// I/O error, the error's own text follows the stated prefix.
    pub fn to_message(&self) -> (r: String)
        ensures
            match self {
                GicError::Config(m) => r@ == "Configuration error: "@ + m@,
                GicError::Logging(m) => r@ == "Logging initialization error: "@ + m@,
                GicError::Terminal(m) => r@ == "Terminal I/O error: "@ + m@,
                GicError::Io(_) => r@.len() >= 10 && r@.take(10) == "IO Error: "@,
                GicError::FileNotFound(p) => r@ == "File not found: "@ + p@,
                GicError::PermissionDenied(p) => r@ == "Permission denied: "@ + p@,
                GicError::InvalidUtf8 { path, message, .. } => r@ == "Invalid UTF-8 in file '"@
                    + path@ + "': "@ + message@,
                GicError::FileTooLarge { path, size, max_size } => r@ == "File too large ("@
                    + decimal(*size as nat) + " bytes exceeds max "@ + decimal(*max_size as nat)
                    + " bytes): "@ + path@,
                GicError::NoPathSpecified => r@ == "No file path specified for operation"@,
                GicError::FsIo { path, .. } => {
                    let pre = "File system I/O error on '"@ + path@ + "': "@;
                    r@.len() >= pre.len() && r@.take(pre.len() as int) == pre
                },
            },
    {
        match self {
            GicError::Config(m) => concat_strs("Configuration error: ", m.as_str()),
            GicError::Logging(m) => concat_strs("Logging initialization error: ", m.as_str()),
            GicError::Terminal(m) => concat_strs("Terminal I/O error: ", m.as_str()),
            GicError::Io(e) => {
                let t = io_error_text(e);
                let r = concat_strs("IO Error: ", t.as_str());
                proof {
                    reveal_strlit("IO Error: ");
                    assert(r@.take(10) =~= "IO Error: "@);
                }
                r
            },
            GicError::FileNotFound(p) => concat_strs("File not found: ", p.as_str()),
            GicError::PermissionDenied(p) => concat_strs("Permission denied: ", p.as_str()),
            GicError::InvalidUtf8 { path, message, .. } => {
                let mut s = concat_strs("Invalid UTF-8 in file '", path.as_str());
                s.append("': ");
                s.append(message.as_str());
                s
            },
            GicError::FileTooLarge { path, size, max_size } => {
                let mut s = "File too large (".to_owned();
                push_decimal_u64(&mut s, *size);
                s.append(" bytes exceeds max ");
                push_decimal_u64(&mut s, *max_size);
                s.append(" bytes): ");
                s.append(path.as_str());
                s
            },
            GicError::NoPathSpecified => "No file path specified for operation".to_owned(),
            GicError::FsIo { path, source } => {
                let mut s = concat_strs("File system I/O error on '", path.as_str());
                s.append("': ");
                let ghost pre = s@;
                let t = io_error_text(source);
                s.append(t.as_str());
                assert(s@.take(pre.len() as int) =~= pre);
                s
            },
        }
    }
}

/// Appends the decimal rendering of a `u64`.
fn push_decimal_u64(s: &mut String, n: u64)
    ensures
        final(s)@ == old(s)@ + decimal(n as nat),
{
    let d = crate::text::u64_to_string(n);
    s.append(d.as_str());
}

} // verus!
