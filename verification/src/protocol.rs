//! Command and response codes of the serial bootloader protocol.

use vstd::prelude::*;

verus! {

/// Commands this tool sends to the bootloader.
#[derive(Clone, Copy, Debug, PartialEq, Eq, Structural)]
pub enum Command {
    Ping,
    Info,
    ID,
    Reset,
    ErasePage,
    WritePage,
    XEBlock,
    XWPage,
    Crcx,
    ReadRange,
    XRRange,
    SetAttribute,
    GetAttribute,
    CRCInternalFlash,
    Crcef,
    XEPage,
    XFinit,
    ClkOut,
    WUser,
    ChangeBaudRate,
    Exit,
    SetStartAddress,
}

pub open spec fn spec_command_code(c: Command) -> u8 {
    match c {
        Command::Ping => 0x01,
        Command::Info => 0x03,
        Command::ID => 0x04,
        Command::Reset => 0x05,
        Command::ErasePage => 0x06,
        Command::WritePage => 0x07,
        Command::XEBlock => 0x08,
        Command::XWPage => 0x09,
        Command::Crcx => 0x10,
        Command::ReadRange => 0x11,
        Command::XRRange => 0x12,
        Command::SetAttribute => 0x13,
        Command::GetAttribute => 0x14,
        Command::CRCInternalFlash => 0x15,
        Command::Crcef => 0x16,
        Command::XEPage => 0x17,
        Command::XFinit => 0x18,
        Command::ClkOut => 0x19,
        Command::WUser => 0x20,
        Command::ChangeBaudRate => 0x21,
        Command::Exit => 0x22,
        Command::SetStartAddress => 0x23,
    }
}

impl Command {
    /// The wire value of this command.
    pub fn code(&self) -> (r: u8)
        ensures
            r == spec_command_code(*self),
    {
        match self {
            Command::Ping => 0x01,
            Command::Info => 0x03,
            Command::ID => 0x04,
            Command::Reset => 0x05,
            Command::ErasePage => 0x06,
            Command::WritePage => 0x07,
            Command::XEBlock => 0x08,
            Command::XWPage => 0x09,
            Command::Crcx => 0x10,
            Command::ReadRange => 0x11,
            Command::XRRange => 0x12,
            Command::SetAttribute => 0x13,
            Command::GetAttribute => 0x14,
            Command::CRCInternalFlash => 0x15,
            Command::Crcef => 0x16,
            Command::XEPage => 0x17,
            Command::XFinit => 0x18,
            Command::ClkOut => 0x19,
            Command::WUser => 0x20,
            Command::ChangeBaudRate => 0x21,
            Command::Exit => 0x22,
            Command::SetStartAddress => 0x23,
        }
    }
}

/// Responses the bootloader sends back.  `BadResp` stands for any byte the
/// protocol does not document, so an undocumented code is carried, never a
/// crash.
#[derive(Clone, Copy, Debug, PartialEq, Eq, Structural)]
pub enum Response {
    Overflow,
    Pong,
    BadAddr,
    IntError,
    BadArgs,
    OK,
    Unknown,
    XFTimeout,
    Xfepe,
    Crcrx,
    ReadRange,
    XRRange,
    GetAttribute,
    CRCInternalFlash,
    Crcxf,
    Info,
    ChangeBaudFail,
    BadResp,
}

pub open spec fn spec_response_from_byte(value: u8) -> Response {
    match value {
        0x10 => Response::Overflow,
        0x11 => Response::Pong,
        0x12 => Response::BadAddr,
        0x13 => Response::IntError,
        0x14 => Response::BadArgs,
        0x15 => Response::OK,
        0x16 => Response::Unknown,
        0x17 => Response::XFTimeout,
        0x18 => Response::Xfepe,
        0x19 => Response::Crcrx,
        0x20 => Response::ReadRange,
        0x21 => Response::XRRange,
        0x22 => Response::GetAttribute,
        0x23 => Response::CRCInternalFlash,
        0x24 => Response::Crcxf,
        0x25 => Response::Info,
        0x26 => Response::ChangeBaudFail,
        _ => Response::BadResp,
    }
}

/// The wire value a documented response code answers to; `BadResp` has no
/// wire value of its own.
pub open spec fn spec_response_code(r: Response) -> u8 {
    match r {
        Response::Overflow => 0x10,
        Response::Pong => 0x11,
        Response::BadAddr => 0x12,
        Response::IntError => 0x13,
        Response::BadArgs => 0x14,
        Response::OK => 0x15,
        Response::Unknown => 0x16,
        Response::XFTimeout => 0x17,
        Response::Xfepe => 0x18,
        Response::Crcrx => 0x19,
        Response::ReadRange => 0x20,
        Response::XRRange => 0x21,
        Response::GetAttribute => 0x22,
        Response::CRCInternalFlash => 0x23,
        Response::Crcxf => 0x24,
        Response::Info => 0x25,
        Response::ChangeBaudFail => 0x26,
        Response::BadResp => 0xFF,
    }
}

impl Response {
    /// Decode one response byte; an undocumented byte gives `BadResp`.
    pub fn from_byte(value: u8) -> (r: Response)
        ensures
            r == spec_response_from_byte(value),
    {
        match value {
            0x10 => Response::Overflow,
            0x11 => Response::Pong,
            0x12 => Response::BadAddr,
            0x13 => Response::IntError,
            0x14 => Response::BadArgs,
            0x15 => Response::OK,
            0x16 => Response::Unknown,
            0x17 => Response::XFTimeout,
            0x18 => Response::Xfepe,
            0x19 => Response::Crcrx,
            0x20 => Response::ReadRange,
            0x21 => Response::XRRange,
            0x22 => Response::GetAttribute,
            0x23 => Response::CRCInternalFlash,
            0x24 => Response::Crcxf,
            0x25 => Response::Info,
            0x26 => Response::ChangeBaudFail,
            _ => Response::BadResp,
        }
    }

    /// The wire value of a documented response code.
    pub fn code(&self) -> (r: u8)
        ensures
            r == spec_response_code(*self),
    {
        match self {
            Response::Overflow => 0x10,
            Response::Pong => 0x11,
            Response::BadAddr => 0x12,
            Response::IntError => 0x13,
            Response::BadArgs => 0x14,
            Response::OK => 0x15,
            Response::Unknown => 0x16,
            Response::XFTimeout => 0x17,
            Response::Xfepe => 0x18,
            Response::Crcrx => 0x19,
            Response::ReadRange => 0x20,
            Response::XRRange => 0x21,
            Response::GetAttribute => 0x22,
            Response::CRCInternalFlash => 0x23,
            Response::Crcxf => 0x24,
            Response::Info => 0x25,
            Response::ChangeBaudFail => 0x26,
            Response::BadResp => 0xFF,
        }
    }
}

impl From<u8> for Response {
    /// Decode one response byte, as [`Response::from_byte`] does.
    fn from(value: u8) -> (r: Response) {
        Response::from_byte(value)
    }
}

impl vstd::std_specs::convert::FromSpecImpl<u8> for Response {
    open spec fn obeys_from_spec() -> bool {
        true
    }

    open spec fn from_spec(value: u8) -> Response {
        spec_response_from_byte(value)
    }
}

} // verus!
