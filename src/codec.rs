//! The streaming status decoder and the instruction encoder over byte
//! buffers.
use vstd::prelude::*;
use vstd::slice::{slice_subrange, slice_to_vec};

use bytes::BytesMut;

use crate::buffer::{buffer_bytes, buffer_extend, buffer_split_to, buffer_view};
use crate::error::{flags_of, DynamixelDriverError, StatusError};
use crate::instructions::{
    calc_checksum, checksum_of, is_packet, lemma_packet_bytes_shape, packet_bytes, Instruction,
};
use crate::status::{Status, StatusModel};

verus! {

/// Whether the two header bytes `0xFF 0xFF` start at position `i` of `s`.
pub open spec fn is_header_at(s: Seq<u8>, i: int) -> bool {
    0 <= i && i + 1 < s.len() && s[i] == 0xFF && s[i + 1] == 0xFF
}

/// The first position at or after `from` where a header starts, if any.
pub open spec fn header_from(s: Seq<u8>, from: int) -> Option<int>
    decreases s.len() - from,
{
    if from < 0 || from + 1 >= s.len() {
        None
    } else if is_header_at(s, from) {
        Some(from)
    } else {
        header_from(s, from + 1)
    }
}

/// One decoding step on the buffered bytes `s`: what is reported (`Ok(None)`
/// when more bytes are needed) and the bytes left buffered afterwards.
pub open spec fn decode_spec(s: Seq<u8>) -> (
    Result<Option<StatusModel>, DynamixelDriverError>,
    Seq<u8>,
) {
    if s.len() < 4 {
        (Ok(None), s)
    } else if !is_header_at(s, 0) {
        match header_from(s, 0) {
            Some(p) => (Ok(None), s.skip(p)),
            None => (Ok(None), Seq::empty()),
        }
    } else if s[3] < 2 {
        (Err(DynamixelDriverError::HeaderLenTooSmall(s[3])), s.skip(1))
    } else if s.len() < 4 + s[3] {
        (Ok(None), s)
    } else if checksum_of(s.subrange(2, 3 + s[3])) != s[3 + s[3]] {
        (
            Err(
                DynamixelDriverError::ChecksumError(
                    checksum_of(s.subrange(2, 3 + s[3])),
                    s[3 + s[3]],
                ),
            ),
            s.skip(1),
        )
    } else if s[4] != 0 {
        (Err(DynamixelDriverError::StatusError(flags_of(s[4]))), s.skip(4 + s[3]))
    } else {
        (Ok(Some(StatusModel { id: s[2], params: s.subrange(5, 3 + s[3]) })), s.skip(4 + s[3]))
    }
}

/// What a decoding step reported, with the status reduced to its model.
pub open spec fn decoded(r: Result<Option<Status>, DynamixelDriverError>) -> Result<
    Option<StatusModel>,
    DynamixelDriverError,
> {
    match r {
        Ok(Some(status)) => Ok(Some(status@)),
        Ok(None) => Ok(None),
        Err(e) => Err(e),
    }
}

/// Position of the first header in `bytes`, searching from `from`.
fn find_header(bytes: &[u8], from: usize) -> (r: Option<usize>)
    requires
        from <= bytes@.len(),
    ensures
        match r {
            Some(p) => header_from(bytes@, from as int) == Some(p as int) && p < bytes@.len(),
            None => header_from(bytes@, from as int) is None,
        },
{
    let mut i = from;
    while bytes.len() - i >= 2
        invariant
            from <= i <= bytes@.len(),
            header_from(bytes@, from as int) == header_from(bytes@, i as int),
        decreases bytes@.len() - i,
    {
        if bytes[i] == 0xFF && bytes[i + 1] == 0xFF {
            return Some(i);
        }
        i = i + 1;
    }
    None
}

/// The protocol's framing: status replies in, instructions out.
pub struct DynamixelProtocol;

impl DynamixelProtocol {
    /// Takes at most one status reply off the front of `src`, discarding
    /// noise before a header and resynchronizing after a corrupt frame.
    pub fn decode(&mut self, src: &mut BytesMut) -> (r: Result<Option<Status>, DynamixelDriverError>)
        ensures
            decoded(r) == decode_spec(buffer_bytes(*old(src))).0,
            buffer_bytes(*final(src)) == decode_spec(buffer_bytes(*old(src))).1,
    {
        let ghost s = buffer_bytes(*src);
        let bytes = buffer_view(src);
        let n = bytes.len();
        if n < 4 {
            return Ok(None);
        }
        if !(bytes[0] == 0xFF && bytes[1] == 0xFF) {
            let start = find_header(bytes, 1);
            let skipped = match start {
                Some(p) => p,
                None => n,
            };
            let _ = buffer_split_to(src, skipped);
            proof {
                if start is None {
                    assert(s.skip(n as int) =~= Seq::<u8>::empty());
                }
            }
            return Ok(None);
        }
        let id = bytes[2];
        let len = bytes[3];
        if len < 2 {
            let _ = buffer_split_to(src, 1);
            return Err(DynamixelDriverError::HeaderLenTooSmall(len));
        }
        let frame_len = 4 + len as usize;
        if n < frame_len {
            return Ok(None);
        }
        let expected_checksum = calc_checksum(slice_subrange(bytes, 2, 3 + len as usize));
        let received_checksum = bytes[3 + len as usize];
        if expected_checksum != received_checksum {
            let _ = buffer_split_to(src, 1);
            return Err(DynamixelDriverError::ChecksumError(expected_checksum, received_checksum));
        }
        let flags = bytes[4];
        let params = slice_to_vec(slice_subrange(bytes, 5, 3 + len as usize));
        let _ = buffer_split_to(src, frame_len);
        match StatusError::check_error(flags) {
            Err(e) => Err(e),
            Ok(()) => Ok(Some(Status::new(id, params))),
        }
    }

    /// Appends the instruction's bytes to the transmit buffer.
    pub fn encode(&mut self, data: Instruction, buf: &mut BytesMut)
        ensures
            buffer_bytes(*final(buf)) == buffer_bytes(*old(buf)) + data@,
    {
        let msg = data.serialize();
        buffer_extend(buf, msg.as_slice());
    }
}

/// Decoding a buffer that starts with a whole packet, followed by any
/// bytes `rest`: with a zero flag byte the step yields the packet's ID and
/// parameters, with a nonzero one (an instruction code, for instance) the
/// fault those flags encode; either way exactly the packet is consumed and
/// `rest` stays buffered.
pub proof fn lemma_decode_packet(packet: Seq<u8>, rest: Seq<u8>)
    requires
        is_packet(packet),
    ensures
        decode_spec(packet + rest) == if packet[4] == 0 {
            (
                Ok::<Option<StatusModel>, DynamixelDriverError>(
                    Some(StatusModel { id: packet[2], params: packet.subrange(5, packet.len() - 1) }),
                ),
                rest,
            )
        } else {
            (
                Err::<Option<StatusModel>, DynamixelDriverError>(
                    DynamixelDriverError::StatusError(flags_of(packet[4])),
                ),
                rest,
            )
        },
{
    let s = packet + rest;
    let n = packet.len() as int;
    assert(is_header_at(s, 0));
    assert(s.subrange(2, n - 1) =~= packet.subrange(2, n - 1));
    assert(s.subrange(5, n - 1) =~= packet.subrange(5, n - 1));
    assert(s.skip(n) =~= rest);
}

/// A packet with zero flags decodes back to its ID and parameters, leaving
/// nothing buffered.
pub proof fn lemma_decode_round_trip(id: u8, params: Seq<u8>)
    requires
        params.len() <= 253,
    ensures
        decode_spec(packet_bytes(id, 0, params)) == (
            Ok::<Option<StatusModel>, DynamixelDriverError>(Some(StatusModel { id, params })),
            Seq::<u8>::empty(),
        ),
{
    lemma_packet_bytes_shape(id, 0, params);
    lemma_decode_packet(packet_bytes(id, 0, params), Seq::empty());
    assert(packet_bytes(id, 0, params) + Seq::<u8>::empty() =~= packet_bytes(id, 0, params));
}

/// Garbage in front of a valid reply, with no header starting anywhere in
/// it, is discarded in one step that reports that more bytes are needed;
/// the next step yields the reply. Exactly the garbage's bytes are consumed
/// before the reply appears.
pub proof fn lemma_resynchronize(garbage: Seq<u8>, id: u8, params: Seq<u8>, rest: Seq<u8>)
    requires
        params.len() <= 253,
        garbage.len() > 0,
        forall|i: int|
            0 <= i < garbage.len() ==> !is_header_at(
                garbage + (packet_bytes(id, 0, params) + rest),
                i,
            ),
    ensures
        decode_spec(garbage + (packet_bytes(id, 0, params) + rest)) == (
            Ok::<Option<StatusModel>, DynamixelDriverError>(None),
            packet_bytes(id, 0, params) + rest,
        ),
        decode_spec(packet_bytes(id, 0, params) + rest) == (
            Ok::<Option<StatusModel>, DynamixelDriverError>(Some(StatusModel { id, params })),
            rest,
        ),
{
    let tail = packet_bytes(id, 0, params) + rest;
    let s = garbage + tail;
    let n = garbage.len() as int;
    assert(is_header_at(s, n));
    lemma_header_from_skips(s, 0, n);
    assert(s.skip(n) =~= tail);
    lemma_packet_bytes_shape(id, 0, params);
    lemma_decode_packet(packet_bytes(id, 0, params), rest);
}

/// With no header in `[from, p)` and one at `p`, the search from `from`
/// finds `p`.
proof fn lemma_header_from_skips(s: Seq<u8>, from: int, p: int)
    requires
        0 <= from <= p,
        is_header_at(s, p),
        forall|i: int| from <= i < p ==> !is_header_at(s, i),
    ensures
        header_from(s, from) == Some(p),
    decreases p - from,
{
    if from < p {
        lemma_header_from_skips(s, from + 1, p);
    }
}

/// Every decoding step keeps a suffix of the buffered bytes; every error
/// consumes at least one byte; and a step consumes nothing only while it
/// waits for the rest of a frame whose header is already buffered, or for
/// the first four bytes.
pub proof fn lemma_decode_progress(s: Seq<u8>)
    ensures
        exists|k: int| 0 <= k <= s.len() && decode_spec(s).1 == s.skip(k),
        decode_spec(s).0 is Err ==> decode_spec(s).1.len() < s.len(),
        decode_spec(s).1 == s ==> decode_spec(s).0 == Ok::<
            Option<StatusModel>,
            DynamixelDriverError,
        >(None) && (s.len() < 4 || (is_header_at(s, 0) && s.len() < 4 + s[3])),
{
    if s.len() >= 4 && !is_header_at(s, 0) {
        lemma_header_from_range(s, 0);
        match header_from(s, 0) {
            Some(p) => {
                assert(decode_spec(s).1 == s.skip(p));
                assert(s.skip(p).len() < s.len());
            },
            None => {
                assert(s.skip(s.len() as int) =~= Seq::<u8>::empty());
            },
        }
    } else {
        assert(s.skip(0) =~= s);
    }
}

/// A header found by the search lies after the starting point, at a
/// position where a header starts.
proof fn lemma_header_from_range(s: Seq<u8>, from: int)
    ensures
        header_from(s, from) matches Some(p) ==> from <= p < s.len() && is_header_at(s, p),
    decreases s.len() - from,
{
    if from >= 0 && from + 1 < s.len() && !is_header_at(s, from) {
        lemma_header_from_range(s, from + 1);
    }
}

} // verus!
