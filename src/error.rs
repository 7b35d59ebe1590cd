use vstd::prelude::*;

verus! {

/// Errors of the frame level: a received frame that cannot be trusted.
#[derive(Debug, Clone, Copy, PartialEq, Eq, Structural)]
pub enum PktError {
    /// There were insufficient bytes on the bus.
    InsufficientBytes {
        /// Number of bytes read from the bus, terminator included.
        buffer_length: usize,
    },
    /// The declared data length does not match the actual data.
    IncorrectDataLength {
        /// Length of the unstuffed buffer.
        buffer_length: usize,
        /// Declared data length.
        data_length: usize,
    },
    /// The CRC did not check out.
    CrcInvalid,
}

/// Errors of the command level, reported back to the host as one byte.
#[derive(Debug, Clone, Copy, PartialEq, Eq, Structural)]
pub enum CmdError {
    OK,
    InvalidCommand,
    BadCRC,
    Timeout,
    InvalidLength,
    UnexpectedFrameByte,
    Custom(u8),
}

impl CmdError {
    /// The byte that stands for this error on the wire.
    pub open spec fn spec_byte(self) -> u8 {
        match self {
            CmdError::OK => 0,
            CmdError::InvalidCommand => 1,
            CmdError::BadCRC => 2,
            CmdError::Timeout => 3,
            CmdError::InvalidLength => 4,
            CmdError::UnexpectedFrameByte => 5,
            CmdError::Custom(b) => b,
        }
    }

    /// The byte that stands for this error on the wire.
    pub fn get_byte(&self) -> (r: u8)
        ensures
            r == self.spec_byte(),
    {
        match self {
            CmdError::OK => 0,
            CmdError::InvalidCommand => 1,
            CmdError::BadCRC => 2,
            CmdError::Timeout => 3,
            CmdError::InvalidLength => 4,
            CmdError::UnexpectedFrameByte => 5,
            CmdError::Custom(b) => *b,
        }
    }
}

} // verus!
