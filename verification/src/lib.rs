//! Protocol engine for flashing firmware through a serial bootloader:
//! frame checksum and codec, firmware image parsing, bounded retry and the
//! update session that sequences the commands.

pub mod boundary;
pub mod checksum;
pub mod command;
pub mod endian;
pub mod frame;
pub mod hexline;
pub mod cyacd;
pub mod retry;
pub mod session;

pub use boundary::ErrorSlot;
pub use checksum::checksum;
pub use command::CommandCode;
pub use cyacd::{BootloaderData, BootloaderRow, FormatError};
pub use retry::{AttemptError, Retry, RetryError, RetryStep};
pub use session::{
    check_reply, image_commands, row_commands, Action, SessionState, UpdateError, UpdateSession,
};
pub use frame::{bytes_needed, BootloaderCommand, ByteReader, FrameError, MAX_DATA_LENGTH};
