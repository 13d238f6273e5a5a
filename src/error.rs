//! Device-reported faults and transport or protocol failures, in one error
//! space with a recoverability predicate.
use vstd::prelude::*;

verus! {

/// The fault bits of a status reply's error-flag byte.
#[derive(PartialEq, Debug, Eq, Clone, Copy, Structural)]
pub struct StatusError {
    pub instruction_error: bool,
    pub overload_error: bool,
    pub checksum_error: bool,
    pub range_error: bool,
    pub overheating_error: bool,
    pub angle_limit_error: bool,
    pub input_voltage_error: bool,
}

/// Every failure a driver call can report.
#[derive(Debug)]
#[non_exhaustive]
pub enum DynamixelDriverError {
    /// No reply arrived in time.
    Timeout,
    /// The device answered with fault bits set.
    StatusError(StatusError),
    /// A frame's checksum did not match: expected, then received.
    ChecksumError(u8, u8),
    /// A header that could not be read.
    HeaderError,
    /// A frame whose length field is below the minimum of two.
    HeaderLenTooSmall(u8),
    /// The byte stream ended.
    ReadingError,
    /// The channel itself failed.
    IoError,
    /// A reply too short for the value asked of it.
    DecodingError(&'static str),
    /// The reply came from another device: expected, then actual ID.
    IdMismatchError(u8, u8),
    /// The transport could not be opened.
    FailedOpeningSerialPort,
}

/// The fault vector encoded in an error-flag byte, bit 0 first.
pub open spec fn flags_of(flag: u8) -> StatusError {
    StatusError {
        input_voltage_error: flag & 1u8 != 0,
        angle_limit_error: flag & 2u8 != 0,
        overheating_error: flag & 4u8 != 0,
        range_error: flag & 8u8 != 0,
        checksum_error: flag & 16u8 != 0,
        overload_error: flag & 32u8 != 0,
        instruction_error: flag & 64u8 != 0,
    }
}

/// Whether retrying the same logical operation may succeed.
pub open spec fn recoverable(e: DynamixelDriverError) -> bool {
    match e {
        DynamixelDriverError::IoError => false,
        DynamixelDriverError::FailedOpeningSerialPort => false,
        _ => true,
    }
}

impl DynamixelDriverError {
    pub fn is_recoverable(&self) -> (r: bool)
        ensures
            r == recoverable(*self),
    {
        match self {
            DynamixelDriverError::Timeout => true,
            DynamixelDriverError::StatusError(_) => true,
            DynamixelDriverError::ChecksumError(_, _) => true,
            DynamixelDriverError::HeaderError => true,
            DynamixelDriverError::HeaderLenTooSmall(_) => true,
            DynamixelDriverError::ReadingError => true,
            DynamixelDriverError::DecodingError(_) => true,
            DynamixelDriverError::IdMismatchError(_, _) => true,
            DynamixelDriverError::IoError => false,
            DynamixelDriverError::FailedOpeningSerialPort => false,
        }
    }
}

/// `name` when `set` holds, else nothing.
pub open spec fn flag_name(set: bool, name: &str) -> Seq<char> {
    if set {
        name@
    } else {
        Seq::empty()
    }
}

/// The names of the set fault bits, each followed by a space, in bit order.
pub open spec fn description_of(e: StatusError) -> Seq<char> {
    flag_name(e.input_voltage_error, "input_voltage_error ") + flag_name(
        e.angle_limit_error,
        "angle_limit_error ",
    ) + flag_name(e.overheating_error, "overheating_error ") + flag_name(
        e.range_error,
        "range_error ",
    ) + flag_name(e.checksum_error, "checksum_error ") + flag_name(
        e.overload_error,
        "overload_error ",
    ) + flag_name(e.instruction_error, "instruction_error ")
}

/// Relies on `String::push_str`: appends the characters of `s`.
#[verifier::external_body]
fn append(buf: &mut String, s: &str)
    ensures
        final(buf)@ == old(buf)@ + s@,
{
    buf.push_str(s)
}

impl StatusError {
    /// Turns an error-flag byte into a fault when any bit is set.
    pub fn check_error(flag: u8) -> (r: Result<(), DynamixelDriverError>)
        ensures
            flag == 0 ==> r is Ok,
            flag != 0 ==> r == Err::<(), DynamixelDriverError>(
                DynamixelDriverError::StatusError(flags_of(flag)),
            ),
    {
        if flag == 0 {
            return Ok(());
        }
        let status_error = StatusError {
            input_voltage_error: flag & 1 != 0,
            angle_limit_error: flag & 2 != 0,
            overheating_error: flag & 4 != 0,
            range_error: flag & 8 != 0,
            checksum_error: flag & 16 != 0,
            overload_error: flag & 32 != 0,
            instruction_error: flag & 64 != 0,
        };
        Err(DynamixelDriverError::StatusError(status_error))
    }

    /// The names of the set fault bits, each followed by a space.
    pub fn description(&self) -> (r: String)
        ensures
            r@ == description_of(*self),
    {
        let mut description = String::new();
        if self.input_voltage_error {
            append(&mut description, "input_voltage_error ");
        }
        if self.angle_limit_error {
            append(&mut description, "angle_limit_error ");
        }
        if self.overheating_error {
            append(&mut description, "overheating_error ");
        }
        if self.range_error {
            append(&mut description, "range_error ");
        }
        if self.checksum_error {
            append(&mut description, "checksum_error ");
        }
        if self.overload_error {
            append(&mut description, "overload_error ");
        }
        if self.instruction_error {
            append(&mut description, "instruction_error ");
        }
        description
    }
}

} // verus!
