//! The closed set of protocol opcodes and their wire values.

use vstd::prelude::*;

verus! {

/// A protocol opcode. The status group is what the device answers with, the
/// operation group is what the host asks for. A wire value outside both
/// groups is kept as `Unrecognized` with the raw byte.
#[derive(Clone, Copy, Debug, PartialEq, Eq, Structural)]
pub enum CommandCode {
    Success,
    VerificationError,
    LengthError,
    DataError,
    CommandError,
    DeviceError,
    VersionError,
    ChecksumError,
    FlashArrayError,
    RowError,
    AppError,
    ActiveError,
    UnknownError,
    VerifyChecksum,
    GetFlashSize,
    GetAppStatus,
    EraseRow,
    SyncBootloader,
    SetActiveApp,
    SendData,
    EnterBootloader,
    ProgramRow,
    VerifyRow,
    ExitBootloader,
    Unrecognized(u8),
}

/// The wire value of an opcode.
pub open spec fn code_byte(code: CommandCode) -> u8 {
    match code {
        CommandCode::Success => 0x00,
        CommandCode::VerificationError => 0x02,
        CommandCode::LengthError => 0x03,
        CommandCode::DataError => 0x04,
        CommandCode::CommandError => 0x05,
        CommandCode::DeviceError => 0x06,
        CommandCode::VersionError => 0x07,
        CommandCode::ChecksumError => 0x08,
        CommandCode::FlashArrayError => 0x09,
        CommandCode::RowError => 0x0a,
        CommandCode::AppError => 0x0c,
        CommandCode::ActiveError => 0x0d,
        CommandCode::UnknownError => 0x0f,
        CommandCode::VerifyChecksum => 0x31,
        CommandCode::GetFlashSize => 0x32,
        CommandCode::GetAppStatus => 0x33,
        CommandCode::EraseRow => 0x34,
        CommandCode::SyncBootloader => 0x35,
        CommandCode::SetActiveApp => 0x36,
        CommandCode::SendData => 0x37,
        CommandCode::EnterBootloader => 0x38,
        CommandCode::ProgramRow => 0x39,
        CommandCode::VerifyRow => 0x3a,
        CommandCode::ExitBootloader => 0x3b,
        CommandCode::Unrecognized(raw) => raw,
    }
}

/// The opcode that a wire value stands for.
pub open spec fn code_of_byte(raw: u8) -> CommandCode {
    if raw == 0x00 {
        CommandCode::Success
    } else if raw == 0x02 {
        CommandCode::VerificationError
    } else if raw == 0x03 {
        CommandCode::LengthError
    } else if raw == 0x04 {
        CommandCode::DataError
    } else if raw == 0x05 {
        CommandCode::CommandError
    } else if raw == 0x06 {
        CommandCode::DeviceError
    } else if raw == 0x07 {
        CommandCode::VersionError
    } else if raw == 0x08 {
        CommandCode::ChecksumError
    } else if raw == 0x09 {
        CommandCode::FlashArrayError
    } else if raw == 0x0a {
        CommandCode::RowError
    } else if raw == 0x0c {
        CommandCode::AppError
    } else if raw == 0x0d {
        CommandCode::ActiveError
    } else if raw == 0x0f {
        CommandCode::UnknownError
    } else if raw == 0x31 {
        CommandCode::VerifyChecksum
    } else if raw == 0x32 {
        CommandCode::GetFlashSize
    } else if raw == 0x33 {
        CommandCode::GetAppStatus
    } else if raw == 0x34 {
        CommandCode::EraseRow
    } else if raw == 0x35 {
        CommandCode::SyncBootloader
    } else if raw == 0x36 {
        CommandCode::SetActiveApp
    } else if raw == 0x37 {
        CommandCode::SendData
    } else if raw == 0x38 {
        CommandCode::EnterBootloader
    } else if raw == 0x39 {
        CommandCode::ProgramRow
    } else if raw == 0x3a {
        CommandCode::VerifyRow
    } else if raw == 0x3b {
        CommandCode::ExitBootloader
    } else {
        CommandCode::Unrecognized(raw)
    }
}

/// An opcode is canonical when it is a named one, or an `Unrecognized`
/// whose raw byte no named opcode uses.
pub open spec fn canonical(code: CommandCode) -> bool {
    code_of_byte(code_byte(code)) == code
}

impl CommandCode {
    /// Decodes a wire value. A value that no named opcode uses comes back
    /// as `Unrecognized` with that value, never as a named opcode.
    pub fn from_u8(raw: u8) -> (code: CommandCode)
        ensures
            code == code_of_byte(raw),
            code_byte(code) == raw,
            canonical(code),
    {
        if raw == 0x00 {
            CommandCode::Success
        } else if raw == 0x02 {
            CommandCode::VerificationError
        } else if raw == 0x03 {
            CommandCode::LengthError
        } else if raw == 0x04 {
            CommandCode::DataError
        } else if raw == 0x05 {
            CommandCode::CommandError
        } else if raw == 0x06 {
            CommandCode::DeviceError
        } else if raw == 0x07 {
            CommandCode::VersionError
        } else if raw == 0x08 {
            CommandCode::ChecksumError
        } else if raw == 0x09 {
            CommandCode::FlashArrayError
        } else if raw == 0x0a {
            CommandCode::RowError
        } else if raw == 0x0c {
            CommandCode::AppError
        } else if raw == 0x0d {
            CommandCode::ActiveError
        } else if raw == 0x0f {
            CommandCode::UnknownError
        } else if raw == 0x31 {
            CommandCode::VerifyChecksum
        } else if raw == 0x32 {
            CommandCode::GetFlashSize
        } else if raw == 0x33 {
            CommandCode::GetAppStatus
        } else if raw == 0x34 {
            CommandCode::EraseRow
        } else if raw == 0x35 {
            CommandCode::SyncBootloader
        } else if raw == 0x36 {
            CommandCode::SetActiveApp
        } else if raw == 0x37 {
            CommandCode::SendData
        } else if raw == 0x38 {
            CommandCode::EnterBootloader
        } else if raw == 0x39 {
            CommandCode::ProgramRow
        } else if raw == 0x3a {
            CommandCode::VerifyRow
        } else if raw == 0x3b {
            CommandCode::ExitBootloader
        } else {
            CommandCode::Unrecognized(raw)
        }
    }

    /// The wire value of this opcode.
    pub fn to_u8(self) -> (raw: u8)
        ensures
            raw == code_byte(self),
    {
        match self {
            CommandCode::Success => 0x00,
            CommandCode::VerificationError => 0x02,
            CommandCode::LengthError => 0x03,
            CommandCode::DataError => 0x04,
            CommandCode::CommandError => 0x05,
            CommandCode::DeviceError => 0x06,
            CommandCode::VersionError => 0x07,
            CommandCode::ChecksumError => 0x08,
            CommandCode::FlashArrayError => 0x09,
            CommandCode::RowError => 0x0a,
            CommandCode::AppError => 0x0c,
            CommandCode::ActiveError => 0x0d,
            CommandCode::UnknownError => 0x0f,
            CommandCode::VerifyChecksum => 0x31,
            CommandCode::GetFlashSize => 0x32,
            CommandCode::GetAppStatus => 0x33,
            CommandCode::EraseRow => 0x34,
            CommandCode::SyncBootloader => 0x35,
            CommandCode::SetActiveApp => 0x36,
            CommandCode::SendData => 0x37,
            CommandCode::EnterBootloader => 0x38,
            CommandCode::ProgramRow => 0x39,
            CommandCode::VerifyRow => 0x3a,
            CommandCode::ExitBootloader => 0x3b,
            CommandCode::Unrecognized(raw) => raw,
        }
    }
}

} // verus!
