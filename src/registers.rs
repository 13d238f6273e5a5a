//! The register map and the register-level rules of the driver: which
//! packet each logical operation sends, and how a reply is checked and read.
use vstd::prelude::*;

use crate::error::DynamixelDriverError;
use crate::instructions::{
    packet_bytes, sync_params, sync_write_fits, Instruction, SyncCommand, BROADCAST_ID, READ,
    SYNC_WRITE, WRITE,
};
use crate::status::{is_decoding_error, le_u16, Status};

verus! {

// EEPROM area.
pub const MODEL_NUMBER: u8 = 0;

pub const FIRMWARE_VERSION: u8 = 2;

pub const ID: u8 = 3;

pub const BAUD_RATE: u8 = 4;

pub const MAX_TORQUE: u8 = 14;

// RAM area.
pub const TORQUE_ENABLED: u8 = 24;

pub const CW_COMPLIANCE_SLOPE: u8 = 28;

pub const CCW_COMPLIANCE_SLOPE: u8 = 29;

pub const GOAL_POSITION: u8 = 30;

pub const MOVING_SPEED: u8 = 32;

pub const PRESENT_POSITION: u8 = 36;

pub const PRESENT_VOLTAGE: u8 = 42;

pub const PRESENT_TEMPERATURE: u8 = 43;

/// Bytes of a one-byte write of `value` to register `addr` of device `id`.
pub open spec fn write_u8_bytes(id: u8, addr: u8, value: u8) -> Seq<u8> {
    packet_bytes(id, WRITE, seq![addr, value])
}

/// Bytes of a two-byte write of `value` to register `addr` of device `id`.
pub open spec fn write_u16_bytes(id: u8, addr: u8, value: u16) -> Seq<u8> {
    packet_bytes(id, WRITE, seq![addr, (value % 256) as u8, (value / 256) as u8])
}

/// Bytes of a read of `count` bytes from register `addr` of device `id`.
pub open spec fn read_bytes(id: u8, addr: u8, count: u8) -> Seq<u8> {
    packet_bytes(id, READ, seq![addr, count])
}

/// Bytes of a sync write of `width`-byte values to register `addr`.
pub open spec fn sync_write_bytes(addr: u8, width: u8, commands: Seq<SyncCommand>) -> Seq<u8> {
    packet_bytes(BROADCAST_ID, SYNC_WRITE, seq![addr, width] + sync_params(width, commands))
}

/// What a sync-write request yields: its packet when the entries fit in
/// one packet, a decoding error otherwise.
pub open spec fn sync_request_ok(
    r: Result<Instruction, DynamixelDriverError>,
    addr: u8,
    width: u8,
    commands: Seq<SyncCommand>,
) -> bool {
    if sync_write_fits(width, commands.len()) {
        r matches Ok(i) && i@ == sync_write_bytes(addr, width, commands)
    } else {
        is_decoding_error(r)
    }
}

/// The outcome of checking that a reply came from device `id`.
pub open spec fn id_checked<T>(id: u8, response: Status, r: Result<T, DynamixelDriverError>) -> bool {
    response@.id != id ==> r == Err::<T, DynamixelDriverError>(
        DynamixelDriverError::IdMismatchError(id, response@.id),
    )
}

/// Accepts a reply only when it comes from the device that was asked.
pub fn check_reply(id: u8, response: &Status) -> (r: Result<(), DynamixelDriverError>)
    ensures
        id_checked(id, *response, r),
        response@.id == id ==> r is Ok,
{
    let actual = response.id();
    if id != actual {
        return Err(DynamixelDriverError::IdMismatchError(id, actual));
    }
    Ok(())
}

/// The one-byte register value in a reply from device `id`.
pub fn reply_u8(id: u8, response: &Status) -> (r: Result<u8, DynamixelDriverError>)
    ensures
        id_checked(id, *response, r),
        response@.id == id && response@.params.len() >= 1 ==> r == Ok::<
            u8,
            DynamixelDriverError,
        >(response@.params[0]),
        response@.id == id && response@.params.len() == 0 ==> is_decoding_error(r),
{
    match check_reply(id, response) {
        Err(e) => Err(e),
        Ok(()) => response.as_u8(),
    }
}

/// The two-byte register value in a reply from device `id`.
pub fn reply_u16(id: u8, response: &Status) -> (r: Result<u16, DynamixelDriverError>)
    ensures
        id_checked(id, *response, r),
        response@.id == id && response@.params.len() >= 2 ==> r == Ok::<
            u16,
            DynamixelDriverError,
        >(le_u16(response@.params[0], response@.params[1])),
        response@.id == id && response@.params.len() < 2 ==> is_decoding_error(r),
{
    match check_reply(id, response) {
        Err(e) => Err(e),
        Ok(()) => response.as_u16(),
    }
}

/// Builds a sync write after checking that the entries fit in one packet.
fn sync_request(addr: u8, width: u8, commands: Vec<SyncCommand>) -> (r: Result<
    Instruction,
    DynamixelDriverError,
>)
    requires
        width == 1 || width == 2,
    ensures
        sync_request_ok(r, addr, width, commands@),
{
    let max: usize = if width == 1 {
        125
    } else {
        83
    };
    proof {
        let n = commands@.len();
        if width == 1 {
            assert(sync_write_fits(width, n) == (n <= 125)) by (nonlinear_arith)
                requires
                    width == 1,
            ;
        } else {
            assert(sync_write_fits(width, n) == (n <= 83)) by (nonlinear_arith)
                requires
                    width == 2,
            ;
        }
    }
    if commands.len() > max {
        return Err(DynamixelDriverError::DecodingError("too many sync write entries"));
    }
    Ok(Instruction::sync_command(addr, width, commands))
}

/// Changes the ID of device `id` to `new_id`.
pub fn write_id_request(id: u8, new_id: u8) -> (r: Instruction)
    ensures
        r@ == write_u8_bytes(id, ID, new_id),
{
    Instruction::write_u8(id, ID, new_id)
}

/// Enables or disables the torque of device `id`.
pub fn write_torque_request(id: u8, torque_enabled: bool) -> (r: Instruction)
    ensures
        r@ == write_u8_bytes(id, TORQUE_ENABLED, if torque_enabled { 1 } else { 0 }),
{
    if torque_enabled {
        Instruction::write_u8(id, TORQUE_ENABLED, 1)
    } else {
        Instruction::write_u8(id, TORQUE_ENABLED, 0)
    }
}

/// Reads the present temperature (one byte) of device `id`.
pub fn read_temperature_request(id: u8) -> (r: Instruction)
    ensures
        r@ == read_bytes(id, PRESENT_TEMPERATURE, 1),
{
    Instruction::read_instruction(id, PRESENT_TEMPERATURE, 1)
}

/// Reads the present voltage (one byte, in tenths of a volt) of device `id`.
pub fn read_voltage_request(id: u8) -> (r: Instruction)
    ensures
        r@ == read_bytes(id, PRESENT_VOLTAGE, 1),
{
    Instruction::read_instruction(id, PRESENT_VOLTAGE, 1)
}

/// Reads the present position (two bytes, in ticks) of device `id`.
pub fn read_position_request(id: u8) -> (r: Instruction)
    ensures
        r@ == read_bytes(id, PRESENT_POSITION, 2),
{
    Instruction::read_instruction(id, PRESENT_POSITION, 2)
}

/// Reads the maximum torque (two bytes) of device `id`.
pub fn read_max_torque_request(id: u8) -> (r: Instruction)
    ensures
        r@ == read_bytes(id, MAX_TORQUE, 2),
{
    Instruction::read_instruction(id, MAX_TORQUE, 2)
}

/// Sets both compliance slopes of device `id`: clockwise first.
pub fn write_compliance_slope_both_request(id: u8, compliance: u8) -> (r: (
    Instruction,
    Instruction,
))
    ensures
        r.0@ == write_u8_bytes(id, CW_COMPLIANCE_SLOPE, compliance),
        r.1@ == write_u8_bytes(id, CCW_COMPLIANCE_SLOPE, compliance),
{
    (
        Instruction::write_u8(id, CW_COMPLIANCE_SLOPE, compliance),
        Instruction::write_u8(id, CCW_COMPLIANCE_SLOPE, compliance),
    )
}

/// Sets the goal position of device `id`, in ticks.
pub fn write_position_request(id: u8, pos: u16) -> (r: Instruction)
    ensures
        r@ == write_u16_bytes(id, GOAL_POSITION, pos),
{
    Instruction::write_u16(id, GOAL_POSITION, pos)
}

/// Sets both compliance slopes of every listed device in two broadcasts:
/// clockwise first.
pub fn sync_write_compliance_both_request(compliance: Vec<SyncCommand>) -> (r: Result<
    (Instruction, Instruction),
    DynamixelDriverError,
>)
    ensures
        sync_write_fits(1, compliance@.len()) ==> (r matches Ok(pair) && pair.0@
            == sync_write_bytes(CW_COMPLIANCE_SLOPE, 1, compliance@) && pair.1@
            == sync_write_bytes(CCW_COMPLIANCE_SLOPE, 1, compliance@)),
        !sync_write_fits(1, compliance@.len()) ==> is_decoding_error(r),
{
    let copy = copy_commands(&compliance);
    let cw = sync_request(CW_COMPLIANCE_SLOPE, 1, copy);
    let ccw = sync_request(CCW_COMPLIANCE_SLOPE, 1, compliance);
    match (cw, ccw) {
        (Ok(a), Ok(b)) => Ok((a, b)),
        (Err(e), _) => Err(e),
        (_, Err(e)) => Err(e),
    }
}

/// Enables or disables the torque of every listed device in one broadcast.
pub fn sync_write_torque_request(torque: Vec<SyncCommand>) -> (r: Result<
    Instruction,
    DynamixelDriverError,
>)
    ensures
        sync_request_ok(r, TORQUE_ENABLED, 1, torque@),
{
    sync_request(TORQUE_ENABLED, 1, torque)
}

/// Sets the goal position of every listed device in one broadcast.
pub fn sync_write_position_request(positions: Vec<SyncCommand>) -> (r: Result<
    Instruction,
    DynamixelDriverError,
>)
    ensures
        sync_request_ok(r, GOAL_POSITION, 2, positions@),
{
    sync_request(GOAL_POSITION, 2, positions)
}

/// Sets the moving speed of every listed device in one broadcast.
pub fn sync_write_moving_speed_request(speeds: Vec<SyncCommand>) -> (r: Result<
    Instruction,
    DynamixelDriverError,
>)
    ensures
        sync_request_ok(r, MOVING_SPEED, 2, speeds@),
{
    sync_request(MOVING_SPEED, 2, speeds)
}

/// An element-by-element copy of `commands`.
fn copy_commands(commands: &Vec<SyncCommand>) -> (r: Vec<SyncCommand>)
    ensures
        r@ == commands@,
{
    let mut r: Vec<SyncCommand> = Vec::new();
    let mut i: usize = 0;
    while i < commands.len()
        invariant
            i <= commands@.len(),
            r@ == commands@.take(i as int),
        decreases commands@.len() - i,
    {
        r.push(commands[i]);
        proof {
            assert(commands@.take(i as int + 1) =~= commands@.take(i as int).push(commands@[i as int]));
        }
        i = i + 1;
    }
    assert(commands@.take(i as int) =~= commands@);
    r
}

} // verus!
