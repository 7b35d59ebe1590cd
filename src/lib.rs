//! The ChipWhisperer SimpleSerial protocol: length-validated, CRC-checked packets
//! over a single terminator-delimited byte stream, and a fixed-capacity table of
//! command handlers that answers each inbound packet.

pub mod bus;
pub mod capture_to_target;
pub mod dispatch;
pub mod error;
pub mod hex_ascii;
pub mod packet;
mod primitives;
pub mod target_to_capture;

pub use bus::{read_away, write_away, Bus, ModelStream};
pub use capture_to_target::{CTPacket, CT_METADATA_BYTES_LENGTH};
pub use dispatch::{
    CmdOutcome, CmdResponse, SimpleSerial, CMD_LIST, CMD_RESULT, CMD_STATUS, CMD_VERSION,
    PROTOCOL_VERSION, REGISTRY_FULL_BYTE,
};
pub use error::{CmdError, PktError};
pub use hex_ascii::{byte_to_hex_ascii, num_to_hex_ascii};
pub use packet::{pkt_insert_crc8, pkt_stuff, CRC_GEN_POLY, MAX_DATA_LENGTH};
pub use target_to_capture::{TCPacket, TC_METADATA_BYTES_LENGTH};
