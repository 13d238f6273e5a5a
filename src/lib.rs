//! Driver logic for serial-bus servo actuators speaking protocol 1.0:
//! packet construction, the streaming status decoder, the error taxonomy
//! and the register-level request and reply rules.
use vstd::prelude::*;

pub mod buffer;
pub mod codec;
pub mod error;
pub mod instructions;
pub mod registers;
pub mod status;

pub use codec::DynamixelProtocol;
pub use error::{DynamixelDriverError, StatusError};
pub use instructions::{calc_checksum, Instruction, SyncCommand};
pub use status::Status;

verus! {

} // verus!
