//! A validated status reply and the register values read out of it.
use vstd::prelude::*;

use crate::error::DynamixelDriverError;

verus! {

/// What a status reply carries: the answering device and its parameters.
pub struct StatusModel {
    pub id: u8,
    pub params: Seq<u8>,
}

/// The value of two bytes read least significant first.
pub open spec fn le_u16(low: u8, high: u8) -> u16 {
    (low as int + 256 * high as int) as u16
}

/// Whether `r` is a decoding failure.
pub open spec fn is_decoding_error<T>(r: Result<T, DynamixelDriverError>) -> bool {
    r matches Err(DynamixelDriverError::DecodingError(_))
}

/// A status reply whose frame passed every check, stripped of header,
/// length, error flags and checksum.
#[derive(Debug)]
pub struct Status {
    id: u8,
    params: Vec<u8>,
}

impl View for Status {
    type V = StatusModel;

    closed spec fn view(&self) -> StatusModel {
        StatusModel { id: self.id, params: self.params@ }
    }
}

impl Status {
    pub fn new(id: u8, params: Vec<u8>) -> (r: Status)
        ensures
            r@ == (StatusModel { id, params: params@ }),
    {
        Status { id, params }
    }

    /// The ID of the device that answered.
    pub fn id(&self) -> (r: u8)
        ensures
            r == self@.id,
    {
        self.id
    }

    /// The first parameter byte.
    pub fn as_u8(&self) -> (r: Result<u8, DynamixelDriverError>)
        ensures
            self@.params.len() >= 1 ==> r == Ok::<u8, DynamixelDriverError>(self@.params[0]),
            self@.params.len() == 0 ==> is_decoding_error(r),
    {
        if self.params.len() >= 1 {
            Ok(self.params[0])
        } else {
            Err(DynamixelDriverError::DecodingError("Failed unpacking u8"))
        }
    }

    /// The first two parameter bytes as a little-endian value.
    pub fn as_u16(&self) -> (r: Result<u16, DynamixelDriverError>)
        ensures
            self@.params.len() >= 2 ==> r == Ok::<u16, DynamixelDriverError>(
                le_u16(self@.params[0], self@.params[1]),
            ),
            self@.params.len() < 2 ==> is_decoding_error(r),
    {
        if self.params.len() < 1 {
            return Err(DynamixelDriverError::DecodingError("Failed unpacking u16 first element"));
        }
        if self.params.len() < 2 {
            return Err(DynamixelDriverError::DecodingError("Failed unpacking u16 second element"));
        }
        Ok(self.params[0] as u16 + 256 * self.params[1] as u16)
    }

    /// The same value as `as_u16`, assembled with shifts and masks.
    pub fn as_u16_bad(&self) -> (r: Result<u16, DynamixelDriverError>)
        ensures
            self@.params.len() >= 2 ==> r == Ok::<u16, DynamixelDriverError>(
                le_u16(self@.params[0], self@.params[1]),
            ),
            self@.params.len() < 2 ==> is_decoding_error(r),
    {
        if self.params.len() < 1 {
            return Err(DynamixelDriverError::DecodingError("two"));
        }
        if self.params.len() < 2 {
            return Err(DynamixelDriverError::DecodingError("three"));
        }
        let mut res: u16 = 0;
        let a = self.params[0] as u16;
        let b = self.params[1] as u16;
        res = res | (b << 8);
        res = res | a;
        assert(res == a + 256 * b) by (bit_vector)
            requires
                a < 256,
                b < 256,
                res == (0u16 | (b << 8)) | a,
        ;
        Ok(res)
    }
}

impl PartialEq for Status {
    fn eq(&self, other: &Status) -> (r: bool)
        ensures
            r == (self@ == other@),
    {
        if self.id != other.id || self.params.len() != other.params.len() {
            return false;
        }
        let mut i: usize = 0;
        while i < self.params.len()
            invariant
                self.params@.len() == other.params@.len(),
                i <= self.params@.len(),
                forall|j: int| 0 <= j < i ==> self.params@[j] == other.params@[j],
            decreases self.params@.len() - i,
        {
            if self.params[i] != other.params[i] {
                return false;
            }
            i = i + 1;
        }
        assert(self.params@ =~= other.params@);
        true
    }
}

impl vstd::std_specs::cmp::PartialEqSpecImpl for Status {
    open spec fn obeys_eq_spec() -> bool {
        true
    }

    open spec fn eq_spec(&self, other: &Status) -> bool {
        self@ == other@
    }
}

} // verus!
