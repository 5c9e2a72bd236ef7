//! What can go wrong while a scan is configured or run.

use vstd::prelude::*;

verus! {

/// Why a piece of configuration was refused.
#[derive(Debug, Clone, Copy, PartialEq, Eq, Structural)]
pub enum ParseError {
    /// The port specification is neither a port nor an ascending pair of ports.
    InvalidPortRange,
    /// The scan type is neither `syn` nor `connect`.
    InvalidScanType,
    /// The target is not an IPv4 or IPv6 literal.
    InvalidTarget,
    /// The output path is already taken.
    OutputExists,
}

/// The step of writing the result at which the driver failed.
#[derive(Debug, Clone, Copy, PartialEq, Eq, Structural)]
pub enum IoFailure {
    /// The output file could not be created.
    Create,
    /// The output file was created but could not be written.
    Write,
}

/// Why a scan stopped before its end.
#[derive(Debug, Clone, Copy, PartialEq, Eq, Structural)]
pub enum ScanError {
    /// The output file could not be created or written.
    IoError(IoFailure),
    /// The result could not be encoded.
    SerializationError,
    /// The configured scan type has no implementation.
    Unimplemented,
}

impl ParseError {
    /// The one-line message shown to the user.
    pub fn message(&self) -> (m: &'static str)
        ensures
            m@ == (match *self {
                ParseError::InvalidPortRange => "Invalid port range"@,
                ParseError::InvalidScanType => "Wrong scan type specified"@,
                ParseError::InvalidTarget => "Invalid IP address"@,
                ParseError::OutputExists => "Output file already exists"@,
            }),
    {
        match self {
            ParseError::InvalidPortRange => "Invalid port range",
            ParseError::InvalidScanType => "Wrong scan type specified",
            ParseError::InvalidTarget => "Invalid IP address",
            ParseError::OutputExists => "Output file already exists",
        }
    }
}

impl ScanError {
    /// The one-line message shown to the user.
    pub fn message(&self) -> (m: &'static str)
        ensures
            m@ == (match *self {
                ScanError::IoError(IoFailure::Create) => "Error creating output file"@,
                ScanError::IoError(IoFailure::Write) => "Error writing scan result in file"@,
                ScanError::SerializationError => "Error serializing scan result"@,
                ScanError::Unimplemented => "SYN scan not implemented yet."@,
            }),
    {
        match self {
            ScanError::IoError(IoFailure::Create) => "Error creating output file",
            ScanError::IoError(IoFailure::Write) => "Error writing scan result in file",
            ScanError::SerializationError => "Error serializing scan result",
            ScanError::Unimplemented => "SYN scan not implemented yet.",
        }
    }
}

} // verus!
