use vstd::prelude::*;

verus! {

/// What went wrong in an exchange with the server.
#[derive(Debug)]
pub enum FtpError {
    /// An I/O failure on the control or the data connection.
    ConnectionError(String),
    /// Secure channel negotiation; this engine never raises it.
    SecureError(String),
    /// A reply that is too short, has no numeric code, or carries a code the
    /// caller did not accept. Holds the offending text.
    InvalidResponse(String),
    /// A passive-mode address tuple with a component outside 0..=255.
    InvalidAddress(String),
}

/// The kind of an error, without the text it carries.
#[derive(Debug, Clone, Copy, PartialEq, Eq, Structural)]
pub enum ErrorKind {
    Connection,
    Secure,
    InvalidResponse,
    InvalidAddress,
}

impl FtpError {
    pub open spec fn kind(&self) -> ErrorKind {
        match self {
            FtpError::ConnectionError(_) => ErrorKind::Connection,
            FtpError::SecureError(_) => ErrorKind::Secure,
            FtpError::InvalidResponse(_) => ErrorKind::InvalidResponse,
            FtpError::InvalidAddress(_) => ErrorKind::InvalidAddress,
        }
    }

    pub fn error_kind(&self) -> (r: ErrorKind)
        ensures
            r == self.kind(),
    {
        match self {
            FtpError::ConnectionError(_) => ErrorKind::Connection,
            FtpError::SecureError(_) => ErrorKind::Secure,
            FtpError::InvalidResponse(_) => ErrorKind::InvalidResponse,
            FtpError::InvalidAddress(_) => ErrorKind::InvalidAddress,
        }
    }
}

/// A complete reply: its numeric code and the text of its final line,
/// line terminator included.
#[derive(Debug)]
pub struct Line(pub u32, pub String);

} // verus!
