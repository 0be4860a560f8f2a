//! Link-layer codec for a byte-stuffed, checksummed serial control protocol.
//!
//! Bytes arriving one at a time are unstuffed, framed, checked and decoded
//! into typed messages; typed messages are encoded back into frames.
pub mod buffer;
pub mod checksum;
pub mod error;
pub mod framing;
pub mod laws;
pub mod messages;
pub mod parser;

pub use buffer::{WorkingBuffer, MAX_MESSAGE_SIZE};
pub use checksum::{checksum, Checksum};
pub use error::ParseError;
pub use framing::{serialize_msg, serialize_raw};
pub use messages::{
    ActiveCapacitanceStruct, BulkCapacitanceStruct, CommandAckStruct, ElectrodeEnableStruct,
    Message, MessageStruct, MoveStepperStruct, ACTIVE_CAPACITANCE_ID, BULK_CAPACITANCE_ID,
    COMMAND_ACK_ID, DRIVE_ENABLE_ID, ELECTRODE_ENABLE_ID, MOVE_STEPPER_ID,
};
pub use parser::Parser;
