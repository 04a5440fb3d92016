//! The binary framing of the motor bus: building command packets and
//! parsing status reports.
//!
//! Every packet is a four-byte header, a target id, a little-endian length
//! of what follows the length field, an instruction code, the parameters of
//! the instruction, and a little-endian CRC-16 over the bytes from the
//! target id to the last parameter.

use crate::crc::{crc16, crc16_range, crc_of, lemma_crc_detects_one_byte};
use vstd::prelude::*;

verus! {

/// Target id that addresses every motor named in the parameters.
pub const BROADCAST_ID: u8 = 0xFE;

/// Instruction: read the same register range from several motors.
pub const SYNC_READ: u8 = 0x82;

/// Instruction: write the same register range of several motors.
pub const SYNC_WRITE: u8 = 0x83;

/// Instruction code of a status report.
pub const STATUS: u8 = 0x55;

/// Register that switches a motor's torque.
pub const TORQUE_ENABLE_ADDR: u16 = 64;

/// Register that holds the position a motor is to reach.
pub const GOAL_POSITION_ADDR: u16 = 116;

/// Register that holds the position a motor is at.
pub const PRESENT_POSITION_ADDR: u16 = 132;

/// Width in bytes of a position register.
pub const POSITION_WIDTH: u16 = 4;

/// Length in bytes of a status report that carries one position.
pub const STATUS_PACKET_LEN: usize = 15;

/// Value of the length field in such a report.
pub const STATUS_LENGTH_FIELD: u16 = 8;

/// Steps in one full turn of a motor.
pub const STEPS_PER_TURN: i32 = 4096;

/// The raw position that stands for the angle zero.
pub const CENTER_STEP: i32 = 2048;

/// Why a region of a buffer is no status report.
#[derive(Clone, Copy, Debug, PartialEq, Eq, Structural)]
pub enum DecodeError {
    /// Fewer bytes than a report has are left from the offset on.
    Truncated,
    /// The region does not start with the header.
    BadHeader,
    /// The instruction code is not that of a status report.
    UnexpectedInstruction,
    /// The length field is not that of a report with one position.
    LengthMismatch,
    /// The trailing checksum is not that of the bytes it covers.
    ChecksumMismatch,
}

/// What a motor reported: its id, the raw value it sent, and its error byte.
#[derive(Clone, Copy, Debug, PartialEq, Eq, Structural)]
pub struct StatusReport {
    pub id: u8,
    pub value: i32,
    pub error: u8,
}

/// A nonzero error byte of a report that is valid otherwise.
#[derive(Clone, Copy, Debug, PartialEq, Eq, Structural)]
pub struct DeviceAlert {
    pub id: u8,
    pub code: u8,
}

/// The four bytes with which every packet begins.
pub open spec fn header() -> Seq<u8> {
    seq![0xFFu8, 0xFFu8, 0xFDu8, 0x00u8]
}

/// The two bytes of `n`, low byte first.
pub open spec fn u16_le(n: u16) -> Seq<u8> {
    seq![(n % 256) as u8, (n / 256) as u8]
}

/// The number whose two bytes, low byte first, are `lo` and `hi`.
pub open spec fn u16_from_le(lo: u8, hi: u8) -> int {
    lo + 256 * hi
}

/// The four bytes of `v` in two's complement, low byte first.
pub open spec fn i32_le(v: i32) -> Seq<u8> {
    let u: int = if v < 0 {
        v + 0x1_0000_0000
    } else {
        v as int
    };
    seq![(u % 256) as u8, (u / 256 % 256) as u8, (u / 65536 % 256) as u8, (u / 16777216) as u8]
}

/// The number whose two's complement, low byte first, is `b0 b1 b2 b3`.
pub open spec fn i32_from_le(b0: u8, b1: u8, b2: u8, b3: u8) -> i32 {
    let u: int = b0 + 256 * b1 + 65536 * b2 + 16777216 * b3;
    if u >= 0x8000_0000 {
        (u - 0x1_0000_0000) as i32
    } else {
        u as i32
    }
}

/// What the checksum of a packet covers: id, length, instruction, parameters.
pub open spec fn frame_span(id: u8, instruction: u8, params: Seq<u8>) -> Seq<u8> {
    seq![id] + u16_le((params.len() + 3) as u16) + seq![instruction] + params
}

/// The packet with the given target, instruction and parameters.
pub open spec fn frame(id: u8, instruction: u8, params: Seq<u8>) -> Seq<u8> {
    header() + frame_span(id, instruction, params) + u16_le(
        crc_of(frame_span(id, instruction, params)),
    )
}

/// The first `n` entries of a torque write: each id followed by the flag.
pub open spec fn torque_entries(ids: Seq<u8>, flag: u8, n: nat) -> Seq<u8>
    decreases n,
{
    if n == 0 {
        Seq::empty()
    } else {
        torque_entries(ids, flag, (n - 1) as nat) + seq![ids[n - 1], flag]
    }
}

/// The first `n` entries of a position write: each id followed by the four
/// bytes of its raw position.
pub open spec fn position_entries(ids: Seq<u8>, positions: Seq<i32>, n: nat) -> Seq<u8>
    decreases n,
{
    if n == 0 {
        Seq::empty()
    } else {
        position_entries(ids, positions, (n - 1) as nat) + seq![ids[n - 1]] + i32_le(
            positions[n - 1],
        )
    }
}

/// The packet that switches the torque of the motors `ids`.
pub open spec fn torque_packet(ids: Seq<u8>, enabled: bool) -> Seq<u8> {
    frame(
        BROADCAST_ID,
        SYNC_WRITE,
        u16_le(TORQUE_ENABLE_ADDR) + u16_le(1) + torque_entries(
            ids,
            if enabled {
                1u8
            } else {
                0u8
            },
            ids.len(),
        ),
    )
}

/// The packet that sends the motors `ids` to the raw positions `positions`.
pub open spec fn position_packet(ids: Seq<u8>, positions: Seq<i32>) -> Seq<u8> {
    frame(
        BROADCAST_ID,
        SYNC_WRITE,
        u16_le(GOAL_POSITION_ADDR) + u16_le(POSITION_WIDTH) + position_entries(
            ids,
            positions,
            ids.len(),
        ),
    )
}

/// The packet that asks the motors `ids` for `length` bytes at `address`.
pub open spec fn read_packet(ids: Seq<u8>, address: u16, length: u16) -> Seq<u8> {
    frame(BROADCAST_ID, SYNC_READ, u16_le(address) + u16_le(length) + ids)
}

/// The status report by which motor `id` answers with `value`.
pub open spec fn status_packet(id: u8, error: u8, value: i32) -> Seq<u8> {
    frame(id, STATUS, seq![error] + i32_le(value))
}

/// What the fifteen bytes of `buf` from `offset` on say, read as a status
/// report. The checks come in this order: enough bytes, the header, the
/// instruction code, the length field, the checksum.
pub open spec fn decode_status(buf: Seq<u8>, offset: int) -> Result<StatusReport, DecodeError> {
    if offset < 0 || offset + 15 > buf.len() {
        Err(DecodeError::Truncated)
    } else if buf.subrange(offset, offset + 4) != header() {
        Err(DecodeError::BadHeader)
    } else if buf[offset + 7] != STATUS {
        Err(DecodeError::UnexpectedInstruction)
    } else if u16_from_le(buf[offset + 5], buf[offset + 6]) != STATUS_LENGTH_FIELD {
        Err(DecodeError::LengthMismatch)
    } else if crc_of(buf.subrange(offset + 4, offset + 13)) != u16_from_le(
        buf[offset + 13],
        buf[offset + 14],
    ) {
        Err(DecodeError::ChecksumMismatch)
    } else {
        Ok(
            StatusReport {
                id: buf[offset + 4],
                value: i32_from_le(
                    buf[offset + 9],
                    buf[offset + 10],
                    buf[offset + 11],
                    buf[offset + 12],
                ),
                error: buf[offset + 8],
            },
        )
    }
}

/// Reading back the four bytes of a number gives the number.
pub proof fn lemma_i32_le_round_trip(v: i32)
    ensures
        i32_le(v).len() == 4,
        i32_from_le(i32_le(v)[0], i32_le(v)[1], i32_le(v)[2], i32_le(v)[3]) == v,
{
}

fn push_u16_le(out: &mut Vec<u8>, n: u16)
    ensures
        final(out)@ == old(out)@ + u16_le(n),
{
    out.push((n % 256) as u8);
    out.push((n / 256) as u8);
}

fn push_i32_le(out: &mut Vec<u8>, v: i32)
    ensures
        final(out)@ == old(out)@ + i32_le(v),
{
    let u: u32 = if v < 0 {
        ((v - i32::MIN) as u32) + 0x8000_0000u32
    } else {
        v as u32
    };
    out.push((u % 256) as u8);
    out.push((u / 256 % 256) as u8);
    out.push((u / 65536 % 256) as u8);
    out.push((u / 16777216) as u8);
}

fn read_i32_le(b0: u8, b1: u8, b2: u8, b3: u8) -> (v: i32)
    ensures
        v == i32_from_le(b0, b1, b2, b3),
{
    let u: u32 = (b0 as u32) + 256 * (b1 as u32) + 65536 * (b2 as u32) + 16777216 * (b3 as u32);
    if u >= 0x8000_0000u32 {
        ((u - 0x8000_0000u32) as i32) + i32::MIN
    } else {
        u as i32
    }
}

/// Builds the packet with the given target, instruction and parameters.
/// The length field has sixteen bits, which bounds the parameters.
pub fn build_frame(id: u8, instruction: u8, params: &[u8]) -> (out: Vec<u8>)
    requires
        params@.len() + 3 <= 0xFFFF,
    ensures
        out@ == frame(id, instruction, params@),
{
    let length: u16 = (params.len() + 3) as u16;
    let mut span: Vec<u8> = Vec::new();
    span.push(id);
    push_u16_le(&mut span, length);
    span.push(instruction);
    span.extend_from_slice(params);
    assert(span@ =~= frame_span(id, instruction, params@));
    let crc: u16 = crc16(span.as_slice());
    let mut out: Vec<u8> = Vec::new();
    out.push(0xFFu8);
    out.push(0xFFu8);
    out.push(0xFDu8);
    out.push(0x00u8);
    out.extend_from_slice(span.as_slice());
    push_u16_le(&mut out, crc);
    out
}

/// Builds the synchronized write that switches the torque of every motor in
/// `ids` on or off.
pub fn build_sync_write_torque(ids: &[u8], enabled: bool) -> (out: Vec<u8>)
    requires
        2 * ids@.len() + 7 <= 0xFFFF,
    ensures
        out@ == torque_packet(ids@, enabled),
{
    let flag: u8 = if enabled {
        1
    } else {
        0
    };
    let mut params: Vec<u8> = Vec::new();
    push_u16_le(&mut params, TORQUE_ENABLE_ADDR);
    push_u16_le(&mut params, 1);
    let mut k: usize = 0;
    while k < ids.len()
        invariant
            k <= ids@.len(),
            params@ == u16_le(TORQUE_ENABLE_ADDR) + u16_le(1) + torque_entries(
                ids@,
                flag,
                k as nat,
            ),
            params@.len() == 4 + 2 * k,
        decreases ids@.len() - k,
    {
        params.push(ids[k]);
        params.push(flag);
        k = k + 1;
    }
    build_frame(BROADCAST_ID, SYNC_WRITE, params.as_slice())
}

/// Builds the synchronized write that sends each motor in `ids` to the raw
/// position at the same index of `positions`.
pub fn build_sync_write_position(ids: &[u8], positions: &[i32]) -> (out: Vec<u8>)
    requires
        ids@.len() == positions@.len(),
        5 * ids@.len() + 7 <= 0xFFFF,
    ensures
        out@ == position_packet(ids@, positions@),
{
    let mut params: Vec<u8> = Vec::new();
    push_u16_le(&mut params, GOAL_POSITION_ADDR);
    push_u16_le(&mut params, POSITION_WIDTH);
    let mut k: usize = 0;
    while k < ids.len()
        invariant
            k <= ids@.len(),
            ids@.len() == positions@.len(),
            params@ == u16_le(GOAL_POSITION_ADDR) + u16_le(POSITION_WIDTH) + position_entries(
                ids@,
                positions@,
                k as nat,
            ),
            params@.len() == 4 + 5 * k,
        decreases ids@.len() - k,
    {
        params.push(ids[k]);
        push_i32_le(&mut params, positions[k]);
        k = k + 1;
    }
    build_frame(BROADCAST_ID, SYNC_WRITE, params.as_slice())
}

/// Builds the synchronized read that asks every motor in `ids` for `length`
/// bytes from register `address` on.
pub fn build_sync_read_request(ids: &[u8], address: u16, length: u16) -> (out: Vec<u8>)
    requires
        ids@.len() + 7 <= 0xFFFF,
    ensures
        out@ == read_packet(ids@, address, length),
{
    let mut params: Vec<u8> = Vec::new();
    push_u16_le(&mut params, address);
    push_u16_le(&mut params, length);
    params.extend_from_slice(ids);
    assert(params@ =~= u16_le(address) + u16_le(length) + ids@);
    build_frame(BROADCAST_ID, SYNC_READ, params.as_slice())
}

/// Builds the synchronized read of the present position of every motor in
/// `ids`.
pub fn build_sync_current_request(ids: &[u8]) -> (out: Vec<u8>)
    requires
        ids@.len() + 7 <= 0xFFFF,
    ensures
        out@ == read_packet(ids@, PRESENT_POSITION_ADDR, POSITION_WIDTH),
{
    build_sync_read_request(ids, PRESENT_POSITION_ADDR, POSITION_WIDTH)
}

/// Builds the status report by which motor `id` answers a position read.
pub fn build_status(id: u8, error: u8, value: i32) -> (out: Vec<u8>)
    ensures
        out@ == status_packet(id, error, value),
{
    let mut params: Vec<u8> = Vec::new();
    params.push(error);
    push_i32_le(&mut params, value);
    build_frame(id, STATUS, params.as_slice())
}

/// Reads the fifteen bytes of `buffer` from `offset` on as a status report.
/// Nothing outside that region is looked at, so a caller that meets a bad
/// region goes on with the next.
pub fn parse_status(buffer: &[u8], offset: usize) -> (r: Result<StatusReport, DecodeError>)
    ensures
        r == decode_status(buffer@, offset as int),
{
    if buffer.len() < STATUS_PACKET_LEN || offset > buffer.len() - STATUS_PACKET_LEN {
        return Err(DecodeError::Truncated);
    }
    if buffer[offset] != 0xFFu8 || buffer[offset + 1] != 0xFFu8 || buffer[offset + 2] != 0xFDu8
        || buffer[offset + 3] != 0x00u8 {
        return Err(DecodeError::BadHeader);
    }
    assert(buffer@.subrange(offset as int, offset + 4) =~= header());
    if buffer[offset + 7] != STATUS {
        return Err(DecodeError::UnexpectedInstruction);
    }
    let length: u16 = (buffer[offset + 5] as u16) + 256 * (buffer[offset + 6] as u16);
    if length != STATUS_LENGTH_FIELD {
        return Err(DecodeError::LengthMismatch);
    }
    let stored: u16 = (buffer[offset + 13] as u16) + 256 * (buffer[offset + 14] as u16);
    let computed: u16 = crc16_range(buffer, offset + 4, offset + 13);
    if computed != stored {
        return Err(DecodeError::ChecksumMismatch);
    }
    Ok(
        StatusReport {
            id: buffer[offset + 4],
            value: read_i32_le(
                buffer[offset + 9],
                buffer[offset + 10],
                buffer[offset + 11],
                buffer[offset + 12],
            ),
            error: buffer[offset + 8],
        },
    )
}

/// How many steps the raw position `raw` lies from the position that
/// stands for the angle zero.
pub fn offset_from_center(raw: i32) -> (r: i64)
    ensures
        r == raw - CENTER_STEP,
{
    let wide: i64 = raw as i64;
    wide - 2048
}

/// The raw position that lies `offset` steps from the position that stands
/// for the angle zero, where a position register can hold it.
pub fn raw_from_offset(offset: i64) -> (r: Option<i32>)
    ensures
        r is Some <==> i32::MIN <= offset + CENTER_STEP <= i32::MAX,
        r is Some ==> r->0 == offset + CENTER_STEP,
{
    if offset < -2147483648 - 2048 || offset > 2147483647 - 2048 {
        None
    } else {
        let raw: i64 = offset + 2048;
        Some(raw as i32)
    }
}

impl StatusReport {
    /// The advisory that goes with a report whose error byte is not zero.
    /// The reported value stays usable either way.
    pub fn advisory(&self) -> (r: Option<DeviceAlert>)
        ensures
            r == if self.error != 0 {
                Some(DeviceAlert { id: self.id, code: self.error })
            } else {
                None
            },
    {
        if self.error != 0 {
            Some(DeviceAlert { id: self.id, code: self.error })
        } else {
            None
        }
    }
}

/// A status report that was built is read back as it was built, wherever
/// it stands in a buffer: the same id, the same value, the same error byte.
pub proof fn lemma_status_round_trip(
    before: Seq<u8>,
    id: u8,
    error: u8,
    value: i32,
    after: Seq<u8>,
)
    ensures
        status_packet(id, error, value).len() == STATUS_PACKET_LEN,
        decode_status(
            before + status_packet(id, error, value) + after,
            before.len() as int,
        ) == Ok::<StatusReport, DecodeError>(StatusReport { id, value, error }),
{
    let span = frame_span(id, STATUS, seq![error] + i32_le(value));
    let packet = status_packet(id, error, value);
    let buf = before + packet + after;
    let offset = before.len() as int;
    lemma_i32_le_round_trip(value);
    assert(buf.subrange(offset, offset + 4) =~= header());
    assert(buf.subrange(offset + 4, offset + 13) =~= span);
    assert forall|k: int| 0 <= k < 15 implies buf[offset + k] == packet[k] by {}
}

/// Changing one byte of a region that reads as a status report leaves a
/// region that does not read as one.
pub proof fn lemma_corruption_detected(buf: Seq<u8>, offset: int, i: int, byte: u8)
    requires
        decode_status(buf, offset) is Ok,
        offset <= i < offset + STATUS_PACKET_LEN,
        byte != buf[i],
    ensures
        decode_status(buf.update(i, byte), offset) is Err,
{
    let bad = buf.update(i, byte);
    let covered = buf.subrange(offset + 4, offset + 13);
    if offset + 4 <= i < offset + 13 {
        lemma_crc_detects_one_byte(covered, bad.subrange(offset + 4, offset + 13), i - offset - 4);
    } else if i >= offset + 13 {
        assert(bad.subrange(offset + 4, offset + 13) =~= covered);
    }
}

/// Flipping one bit of a region that reads as a status report leaves a
/// region that does not read as one.
pub proof fn lemma_bit_flip_detected(buf: Seq<u8>, offset: int, i: int, bit: u8)
    requires
        decode_status(buf, offset) is Ok,
        offset <= i < offset + STATUS_PACKET_LEN,
        bit < 8,
    ensures
        decode_status(buf.update(i, buf[i] ^ (1u8 << bit)), offset) is Err,
{
    let byte = buf[i];
    assert(byte ^ (1u8 << bit) != byte) by (bit_vector)
        requires
            bit < 8,
    ;
    lemma_corruption_detected(buf, offset, i, byte ^ (1u8 << bit));
}

} // verus!
