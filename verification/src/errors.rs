//! Error taxonomy: protocol failures, TBF decoding failures, install
//! failures, and the umbrella error the library's operations return.

use vstd::prelude::*;

verus! {

/// A failure of the framed serial link.
#[derive(Clone, Copy, Debug, PartialEq, Eq, Structural)]
pub enum ProtocolError {
    /// The underlying read or write failed or timed out.
    IoFailure,
    /// A response header did not start with the escape byte.
    MalformedFrame(u8),
    /// A response carried a code other than the one the command expects.
    UnexpectedResponse(u8),
    /// A response payload had a length other than the one the command
    /// declared.
    WrongPayloadLength,
}

/// A failure to decode a TBF header or footer.
#[derive(Clone, Copy, Debug, PartialEq, Eq, Structural)]
pub enum TbfError {
    /// The stored checksum (first value) differs from the checksum computed
    /// over the header with its checksum field zeroed (second value).
    ChecksumMismatch(u32, u32),
    /// The buffer ends before the structure it should hold.
    TruncatedHeader,
    /// A TLV record's declared length runs past the end of the header.
    BadTlvLength,
    /// The buffer ends before a whole footer record.
    TruncatedFooter,
    /// A header declares a total size of zero, which would stall the
    /// directory walk.
    ZeroTotalSize,
    /// The header version is not one this decoder understands.
    UnsupportedVersion(u16),
}

/// A failure of the install operation.
#[derive(Clone, Copy, Debug, PartialEq, Eq, Structural)]
pub enum InstallError {
    /// The package does not list the attached board: fatal, nothing is
    /// written.
    IncompatibleBoard,
    /// Writing one page got a non-OK response; the page index and the
    /// response byte are carried.
    PageWriteFailed(usize, u8),
}

/// The umbrella error of the library's operations.
#[derive(Clone, Debug)]
pub enum TockloaderError {
    /// The framed serial link failed.
    Protocol(ProtocolError),
    /// The bootloader answered with an unexpected byte.
    BootloaderError(u8),
    /// A TBF header or footer could not be decoded.
    ParsingError(TbfError),
    /// The install operation failed.
    Install(InstallError),
    /// The package holds no binary for the named architecture.
    NoBinaryError(String),
    /// A board attribute that the operation needs is absent or invalid.
    MisconfiguredBoard(String),
    /// The package archive is unusable.
    UnusableTab,
    /// The package metadata could not be parsed.
    InvalidMetadata,
    /// The package archive holds no metadata file.
    NoMetadata,
}

impl TockloaderError {
    /// A short description, in place of a `Display` implementation.
    pub fn message(&self) -> (r: String)
        ensures
            r@.len() > 0,
    {
        let s: &str = match self {
            TockloaderError::Protocol(_) => "Failed to perform read/write operations on the serial link.",
            TockloaderError::BootloaderError(_) => "Bootloader did not respond properly.",
            TockloaderError::ParsingError(_) => "App data could not be parsed.",
            TockloaderError::Install(_) => "Failed to install the app.",
            TockloaderError::NoBinaryError(_) => "No binary found for the requested architecture.",
            TockloaderError::MisconfiguredBoard(_) => "Expected board attribute to be present.",
            TockloaderError::UnusableTab => "Failed to use tab from provided path.",
            TockloaderError::InvalidMetadata => "Failed to parse metadata.",
            TockloaderError::NoMetadata => "No metadata.toml found.",
        };
        proof {
            reveal_strlit("Failed to perform read/write operations on the serial link.");
            reveal_strlit("Bootloader did not respond properly.");
            reveal_strlit("App data could not be parsed.");
            reveal_strlit("Failed to install the app.");
            reveal_strlit("No binary found for the requested architecture.");
            reveal_strlit("Expected board attribute to be present.");
            reveal_strlit("Failed to use tab from provided path.");
            reveal_strlit("Failed to parse metadata.");
            reveal_strlit("No metadata.toml found.");
        }
        String::from_str(s)
    }
}

/// Errors of the command-line front end that the library defines for it.
#[derive(Clone, Copy, Debug, PartialEq, Eq, Structural)]
pub enum CLIError {
    MultipleInterfaces,
}

} // verus!
