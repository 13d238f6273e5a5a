//! Outbound packets and the checksum that ends every packet.
use vstd::prelude::*;
use vstd::slice::slice_subrange;

verus! {

/// Sum of all bytes of `s`, as an unbounded natural number.
pub open spec fn byte_sum(s: Seq<u8>) -> nat
    decreases s.len(),
{
    if s.len() == 0 {
        0
    } else {
        byte_sum(s.drop_last()) + s.last() as nat
    }
}

/// One's complement of the modulo-256 sum of `s`.
pub open spec fn checksum_of(s: Seq<u8>) -> u8 {
    !((byte_sum(s) % 256) as u8)
}

/// Computes the packet checksum over `payload` (the bytes from the ID up to
/// the last parameter).
pub fn calc_checksum(payload: &[u8]) -> (r: u8)
    ensures
        r == checksum_of(payload@),
{
    let mut sum: u8 = 0;
    let mut i: usize = 0;
    while i < payload.len()
        invariant
            i <= payload@.len(),
            sum == byte_sum(payload@.take(i as int)) % 256,
        decreases payload@.len() - i,
    {
        assert(payload@.take(i as int + 1).drop_last() == payload@.take(i as int));
        sum = sum.wrapping_add(payload[i]);
        i = i + 1;
    }
    assert(payload@.take(i as int) == payload@);
    !sum
}

/// Instruction code of a ping.
pub const PING: u8 = 0x01;

/// Instruction code of a register read.
pub const READ: u8 = 0x02;

/// Instruction code of a register write.
pub const WRITE: u8 = 0x03;

/// Instruction code of a broadcast sync write.
pub const SYNC_WRITE: u8 = 0x83;

/// The pseudo-ID addressing every device on the bus.
pub const BROADCAST_ID: u8 = 0xFE;

/// Wire bytes of a packet: the two header bytes, the ID, the length field
/// (parameter count plus two), the instruction code (or, in a status reply,
/// the error flags), the parameters and the checksum of everything between
/// the header and the checksum itself.
pub open spec fn packet_bytes(id: u8, code: u8, params: Seq<u8>) -> Seq<u8> {
    let body = seq![id, (params.len() + 2) as u8, code] + params;
    seq![0xFFu8, 0xFFu8] + body.push(checksum_of(body))
}

/// Whether `s` has the shape of a packet: the two header bytes, a length
/// field equal to the number of bytes that follow it, and a last byte that
/// is the checksum of everything between the header and itself.
pub open spec fn is_packet(s: Seq<u8>) -> bool {
    &&& s.len() >= 6
    &&& s[0] == 0xFF && s[1] == 0xFF
    &&& s[3] == s.len() - 4
    &&& s.last() == checksum_of(s.subrange(2, s.len() - 1))
}

/// An outbound packet, already serialized; it always has the shape of a
/// packet.
#[derive(Debug)]
pub struct Instruction {
    payload: Vec<u8>,
}

impl View for Instruction {
    type V = Seq<u8>;

    closed spec fn view(&self) -> Seq<u8> {
        self.payload@
    }
}

/// Bytes that one sync-write entry contributes: the target ID followed by
/// the low `width` bytes of the value, least significant first.
pub open spec fn sync_entry(width: u8, command: SyncCommand) -> Seq<u8> {
    if width == 1 {
        seq![command@.0, (command@.1 % 256) as u8]
    } else {
        seq![command@.0, (command@.1 % 256) as u8, (command@.1 / 256 % 256) as u8]
    }
}

/// Concatenated sync-write entries of `commands`, in order.
pub open spec fn sync_params(width: u8, commands: Seq<SyncCommand>) -> Seq<u8>
    decreases commands.len(),
{
    if commands.len() == 0 {
        seq![]
    } else {
        sync_params(width, commands.drop_last()) + sync_entry(width, commands.last())
    }
}

/// Whether a sync write of `count` entries of `width` bytes each is
/// expressible: the width is one or two bytes and the length field fits in
/// one byte.
pub open spec fn sync_write_fits(width: u8, count: nat) -> bool {
    (width == 1 || width == 2) && (width + 1) * count + 4 <= 255
}

impl Instruction {
    #[verifier::type_invariant]
    spec fn well_formed(&self) -> bool {
        is_packet(self.payload@)
    }

    /// Appends the checksum of everything after the two header bytes.
    fn seal(data: Vec<u8>) -> (r: Instruction)
        requires
            data@.len() >= 5,
            data@[0] == 0xFF && data@[1] == 0xFF,
            data@[3] == data@.len() - 3,
        ensures
            r@ == data@.push(checksum_of(data@.skip(2))),
    {
        let mut data = data;
        let checksum = calc_checksum(slice_subrange(data.as_slice(), 2, data.len()));
        let ghost before = data@;
        data.push(checksum);
        assert(data@.subrange(2, data@.len() - 1) =~= before.skip(2));
        Instruction { payload: data }
    }

    /// Reads `length` bytes starting at register `addr` of device `id`.
    pub fn read_instruction(id: u8, addr: u8, length: u8) -> (r: Instruction)
        ensures
            r@ == packet_bytes(id, READ, seq![addr, length]),
    {
        let data: Vec<u8> = vec![0xFF, 0xFF, id, 0x04, READ, addr, length];
        proof {
            lemma_sealed(data@, id, READ, seq![addr, length]);
        }
        Instruction::seal(data)
    }

    /// Writes one byte to register `addr` of device `id`.
    pub fn write_u8(id: u8, addr: u8, data: u8) -> (r: Instruction)
        ensures
            r@ == packet_bytes(id, WRITE, seq![addr, data]),
    {
        let payload: Vec<u8> = vec![0xFF, 0xFF, id, 0x04, WRITE, addr, data];
        proof {
            lemma_sealed(payload@, id, WRITE, seq![addr, data]);
        }
        Instruction::seal(payload)
    }

    /// Writes a two-byte value, least significant byte first, to register
    /// `addr` of device `id`.
    pub fn write_u16(id: u8, addr: u8, data: u16) -> (r: Instruction)
        ensures
            r@ == packet_bytes(id, WRITE, seq![addr, (data % 256) as u8, (data / 256) as u8]),
    {
        let low = (data % 256) as u8;
        let high = (data / 256) as u8;
        let payload: Vec<u8> = vec![0xFF, 0xFF, id, 0x05, WRITE, addr, low, high];
        proof {
            lemma_sealed(payload@, id, WRITE, seq![addr, low, high]);
        }
        Instruction::seal(payload)
    }

    /// Asks device `id` to answer with an empty status reply.
    pub fn ping(id: u8) -> (r: Instruction)
        ensures
            r@ == packet_bytes(id, PING, seq![]),
    {
        let payload: Vec<u8> = vec![0xFF, 0xFF, id, 0x02, PING];
        proof {
            lemma_sealed(payload@, id, PING, seq![]);
        }
        Instruction::seal(payload)
    }

    /// A broadcast that writes, to register `addr` of each listed device, the
    /// low `data_len` bytes of that device's value.
    pub fn sync_command(addr: u8, data_len: u8, commands: Vec<SyncCommand>) -> (r: Instruction)
        requires
            sync_write_fits(data_len, commands@.len()),
        ensures
            r@ == packet_bytes(
                BROADCAST_ID,
                SYNC_WRITE,
                seq![addr, data_len] + sync_params(data_len, commands@),
            ),
    {
        proof {
            let n = commands@.len() as int;
            let w = data_len as int;
            assert(n <= 125 && (w + 1) * n <= 251) by (nonlinear_arith)
                requires
                    1 <= w <= 2,
                    (w + 1) * n + 4 <= 255,
                    n >= 0,
            ;
        }
        let count = commands.len() as u8;
        let len = (data_len + 1) * count + 4;
        let mut data: Vec<u8> = vec![0xFF, 0xFF, BROADCAST_ID, len, SYNC_WRITE, addr, data_len];
        let ghost head = data@;
        let mut i: usize = 0;
        while i < commands.len()
            invariant
                i <= commands@.len(),
                data_len == 1 || data_len == 2,
                head.len() == 7,
                data@ == head + sync_params(data_len, commands@.take(i as int)),
            decreases commands@.len() - i,
        {
            let entry = commands[i];
            data.push(entry.id);
            data.push((entry.value % 256) as u8);
            if data_len == 2 {
                data.push((entry.value / 256 % 256) as u8);
            }
            proof {
                let done = commands@.take(i as int + 1);
                assert(done.drop_last() =~= commands@.take(i as int));
                assert(done.last() == entry);
                assert(data@ =~= head + sync_params(data_len, done));
            }
            i = i + 1;
        }
        proof {
            assert(commands@.take(i as int) =~= commands@);
            lemma_sync_params_len(data_len, commands@);
        }
        proof {
            lemma_sealed(
                data@,
                BROADCAST_ID,
                SYNC_WRITE,
                seq![addr, data_len] + sync_params(data_len, commands@),
            );
        }
        Instruction::seal(data)
    }

    /// The packet's bytes, ready for transmission.
    pub fn serialize(self) -> (r: Vec<u8>)
        ensures
            r@ == self@,
            is_packet(r@),
    {
        proof {
            use_type_invariant(&self);
        }
        self.payload
    }
}

/// The bytes of a packet with at most 253 parameters have the shape of a
/// packet and carry its ID, code and parameters in place.
pub proof fn lemma_packet_bytes_shape(id: u8, code: u8, params: Seq<u8>)
    requires
        params.len() <= 253,
    ensures
        is_packet(packet_bytes(id, code, params)),
        packet_bytes(id, code, params)[2] == id,
        packet_bytes(id, code, params)[4] == code,
        packet_bytes(id, code, params).subrange(5, params.len() as int + 5) == params,
{
    let body = seq![id, (params.len() + 2) as u8, code] + params;
    let p = packet_bytes(id, code, params);
    assert(p.subrange(2, p.len() - 1) =~= body);
    assert(p.subrange(5, params.len() as int + 5) =~= params);
}

/// Sealing header, ID, length, code and parameters gives the packet's bytes.
proof fn lemma_sealed(data: Seq<u8>, id: u8, code: u8, params: Seq<u8>)
    requires
        data =~= seq![0xFFu8, 0xFFu8, id, (params.len() + 2) as u8, code] + params,
    ensures
        data.push(checksum_of(data.skip(2))) == packet_bytes(id, code, params),
{
    let body = seq![id, (params.len() + 2) as u8, code] + params;
    assert(data.skip(2) =~= body);
    assert(data.push(checksum_of(body)) =~= seq![0xFFu8, 0xFFu8] + body.push(checksum_of(body)));
}

/// Each sync-write entry takes one byte for the ID and `width` for the value.
proof fn lemma_sync_params_len(width: u8, commands: Seq<SyncCommand>)
    requires
        width == 1 || width == 2,
    ensures
        sync_params(width, commands).len() == (width + 1) * commands.len(),
    decreases commands.len(),
{
    if commands.len() > 0 {
        lemma_sync_params_len(width, commands.drop_last());
        assert((width + 1) * commands.len() == (width + 1) * (commands.len() - 1) + (width + 1))
            by (nonlinear_arith);
    }
}

/// One entry of a sync write: a device ID and the raw value for it.
#[derive(Debug, Clone, Copy, PartialEq, Eq, Structural)]
pub struct SyncCommand {
    pub id: u8,
    pub value: u32,
}

impl View for SyncCommand {
    type V = (u8, u32);

    open spec fn view(&self) -> (u8, u32) {
        (self.id, self.value)
    }
}

impl SyncCommand {
    pub fn new(id: u8, value: u32) -> (r: SyncCommand)
        ensures
            r@ == (id, value),
    {
        SyncCommand { id, value }
    }

    pub fn id(&self) -> (r: u8)
        ensures
            r == self@.0,
    {
        self.id
    }

    pub fn value(&self) -> (r: u32)
        ensures
            r == self@.1,
    {
        self.value
    }
}

impl From<(u8, u32)> for SyncCommand {
    fn from(input: (u8, u32)) -> (r: SyncCommand) {
        let (id, val) = input;
        SyncCommand::new(id, val)
    }
}

impl vstd::std_specs::convert::FromSpecImpl<(u8, u32)> for SyncCommand {
    open spec fn obeys_from_spec() -> bool {
        true
    }

    open spec fn from_spec(v: (u8, u32)) -> SyncCommand {
        SyncCommand { id: v.0, value: v.1 }
    }
}

impl From<(u8, bool)> for SyncCommand {
    fn from(input: (u8, bool)) -> (r: SyncCommand) {
        let (id, val) = input;
        SyncCommand::new(id, if val { 1 } else { 0 })
    }
}

impl vstd::std_specs::convert::FromSpecImpl<(u8, bool)> for SyncCommand {
    open spec fn obeys_from_spec() -> bool {
        true
    }

    open spec fn from_spec(v: (u8, bool)) -> SyncCommand {
        SyncCommand { id: v.0, value: if v.1 { 1 } else { 0 } }
    }
}

} // verus!
