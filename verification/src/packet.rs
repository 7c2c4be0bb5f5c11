//! The frame model: what a frame carries, and how it lies on the wire.
//!
//! A frame is the marker `FF FF FD 00`, the identifier, a 16-bit length, the
//! body and a 16-bit checksum.  The body is the opcode and the parameters,
//! stuffed.  The length counts the body and the checksum.  The checksum
//! covers every byte before it.  Both 16-bit fields are little-endian.
//!
//! A status frame has the opcode [`instruction_id::STATUS`]; its first
//! parameter byte is the alert byte of the device.

use crate::bytestuff::{
    advance, lemma_stuff_len, lemma_stuff_unstuff_from, lemma_stuffed_first, lemma_unstuff_first,
    lemma_unstuff_stuff, step, stuff_onto, stuffed, unstuff, unstuffed,
};
use crate::checksum::{calculate_checksum, checksum, flip, lemma_checksum_detects_flip};
use crate::endian::{
    lemma_le_round_trip, lemma_u16_le_bytes, u16_from_le, u16_to_le, write_u16_le,
};
use crate::error::{InvalidParameterCount, ReadError, WriteError};
use crate::instructions::instruction_id;
use vstd::prelude::*;
use vstd::slice::slice_subrange;

verus! {

/// The number of bytes before the body: marker, identifier and length.
pub const HEADER_SIZE: usize = 7;

/// The length of the shortest frame: one with an opcode and no parameters.
pub const MIN_PACKET_SIZE: usize = 10;

/// The length of the longest frame: one whose length field is `0xFFFF`.
pub const MAX_PACKET_SIZE: usize = 65542;

/// The four bytes that open every frame.
pub open spec fn marker() -> Seq<u8> {
    seq![0xFFu8, 0xFFu8, 0xFDu8, 0x00u8]
}

/// Whether `data` starts with the marker.
pub open spec fn starts_with_marker(data: Seq<u8>) -> bool {
    &&& data.len() >= 4
    &&& data[0] == 0xFF
    &&& data[1] == 0xFF
    &&& data[2] == 0xFD
    &&& data[3] == 0x00
}

/// What a frame carries.
#[derive(Clone, Debug, PartialEq, Eq)]
pub struct Packet {
    /// The device that the frame is for, or that it comes from.
    pub packet_id: u8,
    /// The opcode.
    pub instruction_id: u8,
    /// The parameters, without stuffing.
    pub parameters: Vec<u8>,
}

/// A [`Packet`] as a mathematical value.
pub struct PacketView {
    pub packet_id: u8,
    pub instruction_id: u8,
    pub parameters: Seq<u8>,
}

impl View for Packet {
    type V = PacketView;

    open spec fn view(&self) -> PacketView {
        PacketView {
            packet_id: self.packet_id,
            instruction_id: self.instruction_id,
            parameters: self.parameters@,
        }
    }
}

/// The answer of a device.
#[derive(Clone, Debug, PartialEq, Eq)]
pub struct StatusPacket {
    /// The device that answered.
    pub packet_id: u8,
    /// The alert byte: the health flags of the device.
    pub alert: u8,
    /// The parameters, without stuffing.
    pub parameters: Vec<u8>,
}

/// A [`StatusPacket`] as a mathematical value.
pub struct StatusPacketView {
    pub packet_id: u8,
    pub alert: u8,
    pub parameters: Seq<u8>,
}

impl View for StatusPacket {
    type V = StatusPacketView;

    open spec fn view(&self) -> StatusPacketView {
        StatusPacketView {
            packet_id: self.packet_id,
            alert: self.alert,
            parameters: self.parameters@,
        }
    }
}

/// A result whose value is taken as a mathematical value.
pub open spec fn result_view<T: View, E>(result: Result<T, E>) -> Result<T::V, E> {
    match result {
        Ok(value) => Ok(value@),
        Err(error) => Err(error),
    }
}

/// The body of the frame for `packet`: opcode and parameters, stuffed.
pub open spec fn body(packet: PacketView) -> Seq<u8> {
    stuffed(seq![packet.instruction_id] + packet.parameters)
}

/// The frame for `packet` without its checksum.
pub open spec fn covered(packet: PacketView) -> Seq<u8> {
    marker() + seq![packet.packet_id] + u16_to_le((body(packet).len() + 2) as u16) + body(packet)
}

/// The frame for `packet`.
///
/// The bytes are a frame of the protocol where they are no more than
/// [`MAX_PACKET_SIZE`]: a longer body does not fit the length field.
pub open spec fn frame(packet: PacketView) -> Seq<u8> {
    covered(packet) + u16_to_le(checksum(0, covered(packet)))
}

/// The frame for `packet`, or why a buffer of `capacity` bytes cannot hold it.
pub open spec fn encoding(capacity: usize, packet: PacketView) -> Result<Seq<u8>, WriteError> {
    let bytes = frame(packet);
    if bytes.len() > MAX_PACKET_SIZE {
        Err(WriteError::PacketTooLarge)
    } else if bytes.len() > capacity {
        Err(WriteError::BufferTooSmall { required: bytes.len() as usize, capacity })
    } else {
        Ok(bytes)
    }
}

/// What the frame `bytes` carries, or what is wrong with it.
///
/// `bytes` is taken as one frame: it has to start with the marker and end
/// with the checksum.
pub open spec fn decode(bytes: Seq<u8>) -> Result<PacketView, ReadError> {
    let end = bytes.len() - 2;
    if bytes.len() < HEADER_SIZE || !starts_with_marker(bytes) {
        Err(ReadError::MissingHeader)
    } else if u16_from_le(bytes.subrange(5, 7)) < 3 {
        Err(ReadError::InvalidLength { declared: u16_from_le(bytes.subrange(5, 7)) as usize })
    } else if u16_from_le(bytes.subrange(5, 7)) != bytes.len() - HEADER_SIZE {
        Err(
            ReadError::SizeMismatch {
                declared: u16_from_le(bytes.subrange(5, 7)) as usize,
                available: (bytes.len() - HEADER_SIZE) as usize,
            },
        )
    } else if u16_from_le(bytes.subrange(end, end + 2)) != checksum(0, bytes.take(end)) {
        Err(
            ReadError::InvalidChecksum {
                message: u16_from_le(bytes.subrange(end, end + 2)),
                computed: checksum(0, bytes.take(end)),
            },
        )
    } else {
        match unstuffed(bytes.subrange(HEADER_SIZE as int, end)) {
            None => Err(ReadError::InvalidStuffing),
            Some(plain) => Ok(
                PacketView {
                    packet_id: bytes[4],
                    instruction_id: plain[0],
                    parameters: plain.skip(1),
                },
            ),
        }
    }
}

/// The packet that carries the status `status`.
pub open spec fn status_packet(status: StatusPacketView) -> PacketView {
    PacketView {
        packet_id: status.packet_id,
        instruction_id: instruction_id::STATUS,
        parameters: seq![status.alert] + status.parameters,
    }
}

/// The status that `packet` carries, if it is a status packet.
pub open spec fn status_of(packet: PacketView) -> Result<StatusPacketView, ReadError> {
    if packet.instruction_id != instruction_id::STATUS {
        Err(
            ReadError::InvalidInstruction {
                actual: packet.instruction_id,
                expected: instruction_id::STATUS,
            },
        )
    } else if packet.parameters.len() == 0 {
        Err(ReadError::InvalidParameterCount(InvalidParameterCount { actual: 0, expected: 1 }))
    } else {
        Ok(
            StatusPacketView {
                packet_id: packet.packet_id,
                alert: packet.parameters[0],
                parameters: packet.parameters.skip(1),
            },
        )
    }
}

/// The status that the frame `bytes` carries, or what is wrong with it.
pub open spec fn decode_status(bytes: Seq<u8>) -> Result<StatusPacketView, ReadError> {
    match decode(bytes) {
        Ok(packet) => status_of(packet),
        Err(error) => Err(error),
    }
}

fn u16_at(bytes: &[u8], at: usize) -> (value: u16)
    requires
        at + 2 <= bytes@.len(),
    ensures
        value == u16_from_le(bytes@.subrange(at as int, at + 2)),
{
    let low: u16 = bytes[at] as u16;
    let high: u16 = bytes[at + 1] as u16;
    low + 256 * high
}

/// Writes the frame for the given packet into `buffer`, which stands for a
/// buffer of `capacity` bytes.
///
/// What `buffer` held before is dropped; its allocation is used again.  On
/// failure its contents are of no use.
pub fn encode_into(
    buffer: &mut Vec<u8>,
    capacity: usize,
    packet_id: u8,
    instruction_id: u8,
    parameters: &[u8],
) -> (r: Result<(), WriteError>)
    ensures
        match encoding(capacity, PacketView { packet_id, instruction_id, parameters: parameters@ }) {
            Ok(bytes) => r is Ok && final(buffer)@ == bytes,
            Err(error) => r == Err::<(), WriteError>(error),
        },
{
    let ghost packet = PacketView { packet_id, instruction_id, parameters: parameters@ };
    proof {
        lemma_stuffed_first(instruction_id, parameters@);
        lemma_stuff_len(advance(0, instruction_id), parameters@);
    }
    buffer.clear();
    if parameters.len() > 0xFFFF {
        return Err(WriteError::PacketTooLarge);
    }
    buffer.push(0xFF);
    buffer.push(0xFF);
    buffer.push(0xFD);
    buffer.push(0x00);
    buffer.push(packet_id);
    buffer.push(0);
    buffer.push(0);
    buffer.push(instruction_id);
    let ghost head = buffer@;
    stuff_onto(buffer, step(0, instruction_id), parameters);
    assert(buffer@ =~= head.take(7) + body(packet));
    let body_len: usize = buffer.len() - HEADER_SIZE;
    if body_len + 2 > 0xFFFF {
        return Err(WriteError::PacketTooLarge);
    }
    let ghost unsized_frame = buffer@;
    write_u16_le(buffer.as_mut_slice(), 5, (body_len + 2) as u16);
    assert(buffer@.subrange(5, 7) == u16_to_le((body_len + 2) as u16));
    assert(buffer@ =~= covered(packet)) by {
        assert(buffer@[5] == buffer@.subrange(5, 7)[0]);
        assert(buffer@[6] == buffer@.subrange(5, 7)[1]);
        assert(forall|i: int|
            0 <= i < buffer@.len() && i != 5 && i != 6 ==> buffer@[i] == unsized_frame[i]);
    }
    let crc = calculate_checksum(0, buffer.as_slice());
    buffer.push((crc % 256) as u8);
    buffer.push((crc / 256) as u8);
    assert(buffer@ =~= frame(packet));
    if buffer.len() > capacity {
        return Err(WriteError::BufferTooSmall { required: buffer.len(), capacity });
    }
    Ok(())
}

/// Reads the frame `bytes`.
///
/// The frame has to be all of `bytes`.  The checks are made in this order:
/// marker, length, size, checksum, stuffing.
pub fn decode_frame(bytes: &[u8]) -> (r: Result<Packet, ReadError>)
    ensures
        result_view(r) == decode(bytes@),
{
    let len = bytes.len();
    if len < HEADER_SIZE || bytes[0] != 0xFF || bytes[1] != 0xFF || bytes[2] != 0xFD || bytes[3]
        != 0x00 {
        return Err(ReadError::MissingHeader);
    }
    let declared: usize = u16_at(bytes, 5) as usize;
    let available: usize = len - HEADER_SIZE;
    if declared < 3 {
        return Err(ReadError::InvalidLength { declared });
    }
    if declared != available {
        return Err(ReadError::SizeMismatch { declared, available });
    }
    let end: usize = len - 2;
    let message = u16_at(bytes, end);
    let computed = calculate_checksum(0, slice_subrange(bytes, 0, end));
    assert(bytes@.subrange(0, end as int) =~= bytes@.take(end as int));
    if message != computed {
        return Err(ReadError::InvalidChecksum { message, computed });
    }
    match unstuff(slice_subrange(bytes, HEADER_SIZE, end)) {
        None => Err(ReadError::InvalidStuffing),
        Some(plain) => {
            proof {
                lemma_unstuff_first(0, bytes@.subrange(HEADER_SIZE as int, end as int));
            }
            let mut parameters = plain;
            let opcode = parameters.remove(0);
            assert(parameters@ =~= plain@.skip(1));
            Ok(Packet { packet_id: bytes[4], instruction_id: opcode, parameters })
        },
    }
}

impl StatusPacket {
    /// Takes `packet` as a status packet: it has to carry the status opcode
    /// and an alert byte.
    pub fn from_packet(packet: Packet) -> (r: Result<StatusPacket, ReadError>)
        ensures
            result_view(r) == status_of(packet@),
    {
        if packet.instruction_id != instruction_id::STATUS {
            return Err(
                ReadError::InvalidInstruction {
                    actual: packet.instruction_id,
                    expected: instruction_id::STATUS,
                },
            );
        }
        if packet.parameters.len() == 0 {
            return Err(
                ReadError::InvalidParameterCount(InvalidParameterCount { actual: 0, expected: 1 }),
            );
        }
        let mut parameters = packet.parameters;
        let alert = parameters.remove(0);
        assert(parameters@ =~= packet.parameters@.skip(1));
        Ok(StatusPacket { packet_id: packet.packet_id, alert, parameters })
    }

    /// Reads the status frame `bytes`.
    pub fn decode(bytes: &[u8]) -> (r: Result<StatusPacket, ReadError>)
        ensures
            result_view(r) == decode_status(bytes@),
    {
        match decode_frame(bytes) {
            Ok(packet) => StatusPacket::from_packet(packet),
            Err(error) => Err(error),
        }
    }

    /// The frame with which a device gives this answer.
    pub fn encode(&self) -> (r: Result<Vec<u8>, WriteError>)
        ensures
            result_view(r) == encoding(MAX_PACKET_SIZE, status_packet(self@)),
    {
        let mut parameters: Vec<u8> = Vec::new();
        parameters.push(self.alert);
        parameters.extend_from_slice(self.parameters.as_slice());
        assert(parameters@ =~= seq![self.alert] + self.parameters@);
        let mut buffer: Vec<u8> = Vec::new();
        match encode_into(
            &mut buffer,
            MAX_PACKET_SIZE,
            self.packet_id,
            instruction_id::STATUS,
            parameters.as_slice(),
        ) {
            Ok(()) => Ok(buffer),
            Err(error) => Err(error),
        }
    }
}

/// The length of a frame: ten bytes around the parameters, and at most one
/// stuffing byte for every three bytes of opcode and parameters.
pub proof fn lemma_frame_len(packet: PacketView)
    ensures
        MIN_PACKET_SIZE + packet.parameters.len() <= frame(packet).len() <= MIN_PACKET_SIZE
            + packet.parameters.len() + (packet.parameters.len() + 1) / 3,
{
    lemma_stuff_len(0, seq![packet.instruction_id] + packet.parameters);
}

/// The layout of a frame that fits the length field.
pub proof fn lemma_frame_layout(packet: PacketView)
    requires
        frame(packet).len() <= MAX_PACKET_SIZE,
    ensures
        frame(packet).len() == HEADER_SIZE + body(packet).len() + 2,
        frame(packet).len() >= MIN_PACKET_SIZE,
        starts_with_marker(frame(packet)),
        frame(packet)[4] == packet.packet_id,
        u16_from_le(frame(packet).subrange(5, 7)) == body(packet).len() + 2,
        frame(packet).subrange(HEADER_SIZE as int, frame(packet).len() - 2) == body(packet),
        frame(packet).take(frame(packet).len() - 2) == covered(packet),
        frame(packet).subrange(frame(packet).len() - 2, frame(packet).len() as int) == u16_to_le(
            checksum(0, covered(packet)),
        ),
{
    let bytes = frame(packet);
    let length = (body(packet).len() + 2) as u16;
    lemma_stuffed_first(packet.instruction_id, packet.parameters);
    lemma_le_round_trip(length, 0);
    assert(bytes.subrange(5, 7) =~= u16_to_le(length));
    assert(bytes.subrange(HEADER_SIZE as int, bytes.len() - 2) =~= body(packet));
    assert(bytes.take(bytes.len() - 2) =~= covered(packet));
    assert(bytes.subrange(bytes.len() - 2, bytes.len() as int) =~= u16_to_le(
        checksum(0, covered(packet)),
    ));
}

/// Reading a frame gives back the packet that it was written for: the same
/// identifier, opcode and parameters, with a checksum that holds.
pub proof fn lemma_decode_frame(packet: PacketView)
    requires
        frame(packet).len() <= MAX_PACKET_SIZE,
    ensures
        decode(frame(packet)) == Ok::<PacketView, ReadError>(packet),
{
    let bytes = frame(packet);
    let plain = seq![packet.instruction_id] + packet.parameters;
    lemma_frame_layout(packet);
    lemma_le_round_trip(checksum(0, covered(packet)), 0);
    lemma_unstuff_stuff(plain);
    assert(plain.skip(1) =~= packet.parameters);
}

/// A frame that reads well is the frame for what was read: no two byte
/// sequences stand for the same packet.
pub proof fn lemma_frame_of_decoded(bytes: Seq<u8>)
    requires
        decode(bytes) is Ok,
    ensures
        frame(decode(bytes)->Ok_0) == bytes,
{
    let packet = decode(bytes)->Ok_0;
    let end = bytes.len() - 2;
    let region = bytes.subrange(HEADER_SIZE as int, end);
    let plain = unstuffed(region)->0;
    lemma_unstuff_first(0, region);
    lemma_stuff_unstuff_from(0, region);
    assert(seq![packet.instruction_id] + packet.parameters =~= plain);
    assert(body(packet) == region);
    lemma_u16_le_bytes(bytes.subrange(5, 7));
    lemma_u16_le_bytes(bytes.subrange(end, end + 2));
    assert(covered(packet) =~= bytes.take(end));
    assert(frame(packet) =~= bytes);
}

/// Reading a status frame gives back the status that it was written for:
/// the same identifier, alert byte and parameters.
pub proof fn lemma_decode_status_frame(status: StatusPacketView)
    requires
        frame(status_packet(status)).len() <= MAX_PACKET_SIZE,
    ensures
        decode_status(frame(status_packet(status))) == Ok::<StatusPacketView, ReadError>(status),
{
    lemma_decode_frame(status_packet(status));
    assert((seq![status.alert] + status.parameters).skip(1) =~= status.parameters);
}

/// A frame in which bits of one byte were flipped is refused, wherever the
/// byte stands.
pub proof fn lemma_corruption_detected(packet: PacketView, index: int, mask: u8)
    requires
        frame(packet).len() <= MAX_PACKET_SIZE,
        0 <= index < frame(packet).len(),
        mask != 0,
    ensures
        decode(flip(frame(packet), index, mask)) is Err,
{
    if index < 4 {
        lemma_marker_flip_detected(packet, index, mask);
    } else if index == 5 || index == 6 {
        lemma_length_flip_detected(packet, index, mask);
    } else {
        lemma_payload_flip_detected(packet, index, mask);
    }
}

/// A frame in which bits of the marker were flipped has no marker.
proof fn lemma_marker_flip_detected(packet: PacketView, index: int, mask: u8)
    requires
        frame(packet).len() <= MAX_PACKET_SIZE,
        0 <= index < 4,
        mask != 0,
    ensures
        decode(flip(frame(packet), index, mask)) == Err::<PacketView, ReadError>(
            ReadError::MissingHeader,
        ),
{
    let bytes = frame(packet);
    let byte = bytes[index];
    assert(mask != 0 ==> byte ^ mask != byte) by (bit_vector);
    lemma_frame_layout(packet);
    assert(flip(bytes, index, mask)[index] != bytes[index]);
}

/// A frame in which bits of the length were flipped has another length
/// than it says.
proof fn lemma_length_flip_detected(packet: PacketView, index: int, mask: u8)
    requires
        frame(packet).len() <= MAX_PACKET_SIZE,
        index == 5 || index == 6,
        mask != 0,
    ensures
        decode(flip(frame(packet), index, mask)) matches Err(error) && (error is InvalidLength
            || error is SizeMismatch),
{
    let bytes = frame(packet);
    let damaged = flip(bytes, index, mask);
    let byte = bytes[index];
    assert(mask != 0 ==> byte ^ mask != byte) by (bit_vector);
    lemma_frame_layout(packet);
    let stored = bytes.subrange(5, 7);
    let field = damaged.subrange(5, 7);
    assert(field[index - 5] != stored[index - 5]);
    assert(field[6 - index] == stored[6 - index]);
    assert(u16_from_le(field) != u16_from_le(stored));
    assert(starts_with_marker(damaged));
    assert(damaged.len() == bytes.len());
}

/// A frame in which bits of one byte behind the marker were flipped, but
/// not in the length, fails the checksum: so for the identifier, the opcode,
/// every parameter byte and the checksum itself.
pub proof fn lemma_payload_flip_detected(packet: PacketView, index: int, mask: u8)
    requires
        frame(packet).len() <= MAX_PACKET_SIZE,
        4 <= index < frame(packet).len(),
        index != 5 && index != 6,
        mask != 0,
    ensures
        decode(flip(frame(packet), index, mask)) matches Err(error)
            && error is InvalidChecksum,
{
    let bytes = frame(packet);
    let damaged = flip(bytes, index, mask);
    let end = bytes.len() - 2;
    let byte = bytes[index];
    assert(mask != 0 ==> byte ^ mask != byte) by (bit_vector);
    lemma_frame_layout(packet);
    lemma_le_round_trip(checksum(0, covered(packet)), 0);
    assert(damaged.subrange(5, 7) =~= bytes.subrange(5, 7));
    if index < end {
        assert(damaged.take(end) =~= flip(covered(packet), index, mask));
        lemma_checksum_detects_flip(0, covered(packet), index, mask);
        assert(damaged.subrange(end, end + 2) =~= bytes.subrange(end, end + 2));
    } else {
        assert(damaged.take(end) =~= covered(packet));
        let stored = bytes.subrange(end, end + 2);
        let field = damaged.subrange(end, end + 2);
        assert(field[index - end] != stored[index - end]);
        assert(forall|i: int| 0 <= i < 2 && i != index - end ==> field[i] == stored[i]);
        assert(u16_from_le(field) != u16_from_le(stored));
    }
}

} // verus!
