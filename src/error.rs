use vstd::prelude::*;

verus! {

/// The single failure type of the archive reader.
#[derive(Debug, Clone)]
pub enum BARFileError {
    /// Size, magic, version or number mismatches, and missing lines.
    InvalidFileFormat(String),
    /// A payload that its algorithm cannot decode.
    CompressionError(String),
    /// A verse or book past the end of the real data.
    ReferenceError(String),
    /// A read past the end of the byte source.
    IOError(String),
}

/// The variant of a [`BARFileError`], without its message.
#[derive(Debug, Clone, Copy, PartialEq, Eq, Structural)]
pub enum ErrorKind {
    InvalidFileFormat,
    CompressionError,
    ReferenceError,
    IOError,
}

impl BARFileError {
    pub open spec fn kind(&self) -> ErrorKind {
        match self {
            BARFileError::InvalidFileFormat(_) => ErrorKind::InvalidFileFormat,
            BARFileError::CompressionError(_) => ErrorKind::CompressionError,
            BARFileError::ReferenceError(_) => ErrorKind::ReferenceError,
            BARFileError::IOError(_) => ErrorKind::IOError,
        }
    }

    /// The variant of this error.
    pub fn error_kind(&self) -> (r: ErrorKind)
        ensures
            r == self.kind(),
    {
        match self {
            BARFileError::InvalidFileFormat(_) => ErrorKind::InvalidFileFormat,
            BARFileError::CompressionError(_) => ErrorKind::CompressionError,
            BARFileError::ReferenceError(_) => ErrorKind::ReferenceError,
            BARFileError::IOError(_) => ErrorKind::IOError,
        }
    }

    /// The message, prefixed as the archive reports it.
    pub fn message(&self) -> (r: String)
        ensures
            r@ == match self {
                BARFileError::InvalidFileFormat(msg) => "BARFile Error: Invalid File Format: "@ + msg@,
                BARFileError::CompressionError(msg) => "BARFile Error: "@ + msg@,
                BARFileError::ReferenceError(msg) => "BARFile Error: "@ + msg@,
                BARFileError::IOError(msg) => "BARFile Error: "@ + msg@,
            },
    {
        match self {
            BARFileError::InvalidFileFormat(msg) => {
                let mut r = "BARFile Error: Invalid File Format: ".to_owned();
                r.append(msg.as_str());
                r
            },
            BARFileError::CompressionError(msg)
            | BARFileError::ReferenceError(msg)
            | BARFileError::IOError(msg) => {
                let mut r = "BARFile Error: ".to_owned();
                r.append(msg.as_str());
                r
            },
        }
    }
}

pub type BARResult<T> = Result<T, BARFileError>;

/// The outcome of an operation that yields text: the characters, or the kind of
/// error.
pub open spec fn text_outcome(r: BARResult<String>) -> Result<Seq<char>, ErrorKind> {
    match r {
        Ok(s) => Ok(s@),
        Err(e) => Err(e.kind()),
    }
}

/// An I/O failure: a read that runs past the end of the byte source.
pub fn end_of_data() -> (e: BARFileError)
    ensures
        e is IOError,
{
    BARFileError::IOError("failed to fill whole buffer".to_owned())
}

} // verus!
