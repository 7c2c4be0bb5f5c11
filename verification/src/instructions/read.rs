//! Reading registers of one device.

use crate::bus::{
    lemma_answer_completes, refuse, transfer, Bus, BusView, Event, EventView, Phase, Step,
};
use crate::endian::u16_to_le;
use crate::error::{CallerError, InvalidParameterCount, ReadError, TransferError};
use crate::instructions::answer::{answered, converted};
use crate::instructions::{instruction_id, packet_id};
use crate::packet::{
    frame, lemma_frame_len, status_packet, PacketView, StatusPacket, StatusPacketView,
    MAX_PACKET_SIZE,
};
use crate::response::{expect_count, u16_response, u32_response, u8_response, Response};
use vstd::prelude::*;

verus! {

/// The parameters of a read instruction: the address, then the count.
pub open spec fn read_parameters(address: u16, count: u16) -> Seq<u8> {
    u16_to_le(address) + u16_to_le(count)
}

/// The instruction that asks the device `motor_id` for `count` bytes at `address`.
pub open spec fn read_packet(motor_id: u8, address: u16, count: u16) -> PacketView {
    PacketView {
        packet_id: motor_id,
        instruction_id: instruction_id::READ,
        parameters: read_parameters(address, count),
    }
}

/// One step of a read of `count` bytes at `address` from the device `motor_id`.
///
/// A read needs one device to answer: any other identifier is refused, and
/// nothing is sent.  The answer has to carry exactly `count` bytes.
pub open spec fn read_step(
    pre: BusView,
    motor_id: u8,
    address: u16,
    count: u16,
    event: EventView,
) -> (BusView, Step<StatusPacketView>) {
    if !packet_id::is_unicast(motor_id) {
        refuse(pre, CallerError::InvalidPacketId { packet_id: motor_id })
    } else {
        let (post, step) = transfer(pre, read_packet(motor_id, address, count), event);
        (post, answered(step, |status: StatusPacketView| expect_count(status, count as usize)))
    }
}

/// One step of a read of an 8-bit register.
pub open spec fn read_u8_step(pre: BusView, motor_id: u8, address: u16, event: EventView) -> (
    BusView,
    Step<Response<u8>>,
) {
    let (post, step) = read_step(pre, motor_id, address, 1, event);
    (post, converted(step, |status: StatusPacketView| u8_response(status)))
}

/// One step of a read of a 16-bit register.
pub open spec fn read_u16_step(pre: BusView, motor_id: u8, address: u16, event: EventView) -> (
    BusView,
    Step<Response<u16>>,
) {
    let (post, step) = read_step(pre, motor_id, address, 2, event);
    (post, converted(step, |status: StatusPacketView| u16_response(status)))
}

/// One step of a read of a 32-bit register.
pub open spec fn read_u32_step(pre: BusView, motor_id: u8, address: u16, event: EventView) -> (
    BusView,
    Step<Response<u32>>,
) {
    let (post, step) = read_step(pre, motor_id, address, 4, event);
    (post, converted(step, |status: StatusPacketView| u32_response(status)))
}

fn read_request(address: u16, count: u16) -> (parameters: [u8; 4])
    ensures
        parameters@ == read_parameters(address, count),
{
    let parameters: [u8; 4] = [
        (address % 256) as u8,
        (address / 256) as u8,
        (count % 256) as u8,
        (count / 256) as u8,
    ];
    assert(parameters@ =~= read_parameters(address, count));
    parameters
}

impl Bus {
    /// Read an arbitrary number of bytes from a specific motor.
    ///
    /// The motor has to be a single one: for the identifier of all motors
    /// the read is refused.  Use [`Bus::sync_read`] to read from several
    /// motors with one instruction.
    pub fn read(&mut self, motor_id: u8, address: u16, count: u16, event: Event<'_>) -> (step: Step<
        StatusPacket,
    >)
        ensures
            (final(self)@, step@) == read_step(old(self)@, motor_id, address, count, event@),
    {
        if motor_id > packet_id::MAX_UNICAST {
            return self.fail(
                TransferError::Caller(CallerError::InvalidPacketId { packet_id: motor_id }),
            );
        }
        let parameters = read_request(address, count);
        match self.transfer_single(motor_id, instruction_id::READ, parameters.as_slice(), event) {
            Step::Send => Step::Send,
            Step::Listen => Step::Listen,
            Step::KeepListening => Step::KeepListening,
            Step::Done(Ok(Some(status))) => match status.expect_parameters(count as usize) {
                Ok(status) => Step::Done(Ok(status)),
                Err(error) => Step::Done(Err(TransferError::Read(error))),
            },
            Step::Done(Ok(None)) => Step::Done(
                Err(TransferError::Caller(CallerError::UnexpectedEvent)),
            ),
            Step::Done(Err(error)) => Step::Done(Err(error)),
        }
    }

    /// Read an 8 bit register from a specific motor.
    pub fn read_u8(&mut self, motor_id: u8, address: u16, event: Event<'_>) -> (step: Step<
        Response<u8>,
    >)
        ensures
            (final(self)@, step@) == read_u8_step(old(self)@, motor_id, address, event@),
    {
        match self.read(motor_id, address, 1, event) {
            Step::Send => Step::Send,
            Step::Listen => Step::Listen,
            Step::KeepListening => Step::KeepListening,
            Step::Done(Ok(status)) => match status.to_u8() {
                Ok(response) => Step::Done(Ok(response)),
                Err(error) => Step::Done(Err(TransferError::Read(error))),
            },
            Step::Done(Err(error)) => Step::Done(Err(error)),
        }
    }

    /// Read 16 bit register from a specific motor.
    pub fn read_u16(&mut self, motor_id: u8, address: u16, event: Event<'_>) -> (step: Step<
        Response<u16>,
    >)
        ensures
            (final(self)@, step@) == read_u16_step(old(self)@, motor_id, address, event@),
    {
        match self.read(motor_id, address, 2, event) {
            Step::Send => Step::Send,
            Step::Listen => Step::Listen,
            Step::KeepListening => Step::KeepListening,
            Step::Done(Ok(status)) => match status.to_u16() {
                Ok(response) => Step::Done(Ok(response)),
                Err(error) => Step::Done(Err(TransferError::Read(error))),
            },
            Step::Done(Err(error)) => Step::Done(Err(error)),
        }
    }

    /// Read 32 bit register from a specific motor.
    pub fn read_u32(&mut self, motor_id: u8, address: u16, event: Event<'_>) -> (step: Step<
        Response<u32>,
    >)
        ensures
            (final(self)@, step@) == read_u32_step(old(self)@, motor_id, address, event@),
    {
        match self.read(motor_id, address, 4, event) {
            Step::Send => Step::Send,
            Step::Listen => Step::Listen,
            Step::KeepListening => Step::KeepListening,
            Step::Done(Ok(status)) => match status.to_u32() {
                Ok(response) => Step::Done(Ok(response)),
                Err(error) => Step::Done(Err(TransferError::Read(error))),
            },
            Step::Done(Err(error)) => Step::Done(Err(error)),
        }
    }
}

/// A read is good for exactly as many bytes as were asked for: the answer
/// of the device is handed out whole if it carries `count` parameter bytes,
/// and is a wrong parameter count if it carries any other number.
pub proof fn lemma_read_checks_count(
    pre: BusView,
    motor_id: u8,
    address: u16,
    count: u16,
    status: StatusPacketView,
)
    requires
        pre.phase == Phase::Listening,
        pre.pending.len() == 0,
        packet_id::is_unicast(motor_id),
        status.packet_id == motor_id,
        frame(status_packet(status)).len() <= MAX_PACKET_SIZE,
        frame(status_packet(status)).len() <= pre.read_capacity,
    ensures
        read_step(
            pre,
            motor_id,
            address,
            count,
            EventView::Received(frame(status_packet(status))),
        ).1 == (if status.parameters.len() == count {
            Step::<StatusPacketView>::Done(Ok(status))
        } else {
            Step::<StatusPacketView>::Done(
                Err(
                    TransferError::Read(
                        ReadError::InvalidParameterCount(
                            InvalidParameterCount {
                                actual: status.parameters.len() as usize,
                                expected: count as usize,
                            },
                        ),
                    ),
                ),
            )
        }),
{
    lemma_answer_completes(pre, read_packet(motor_id, address, count), status);
}

/// A read from its start to its end.  The instruction is staged and, once
/// it is written, the bus listens; the frame of the device then ends the
/// read, with the device's bytes if they are as many as were asked for.
pub proof fn lemma_read_conversation(
    pre: BusView,
    motor_id: u8,
    address: u16,
    count: u16,
    status: StatusPacketView,
)
    requires
        packet_id::is_unicast(motor_id),
        pre.write_capacity >= 15,
        status.packet_id == motor_id,
        status.parameters.len() == count,
        frame(status_packet(status)).len() <= MAX_PACKET_SIZE,
        frame(status_packet(status)).len() <= pre.read_capacity,
    ensures
        ({
            let (staged, first) = read_step(pre, motor_id, address, count, EventView::Start);
            let (waiting, second) = read_step(staged, motor_id, address, count, EventView::Sent);
            let (post, third) = read_step(
                waiting,
                motor_id,
                address,
                count,
                EventView::Received(frame(status_packet(status))),
            );
            &&& first == Step::<StatusPacketView>::Send
            &&& staged.outgoing == frame(read_packet(motor_id, address, count))
            &&& second == Step::<StatusPacketView>::Listen
            &&& third == Step::<StatusPacketView>::Done(Ok(status))
            &&& post.phase == Phase::Idle
            &&& post.pending.len() == 0
        }),
{
    let packet = read_packet(motor_id, address, count);
    lemma_read_parameters(address, count);
    lemma_frame_len(packet);
    let (staged, first) = read_step(pre, motor_id, address, count, EventView::Start);
    let (waiting, second) = read_step(staged, motor_id, address, count, EventView::Sent);
    lemma_read_checks_count(waiting, motor_id, address, count, status);
    lemma_answer_completes(waiting, packet, status);
}

/// The parameters of a read are four bytes: the two of the address, then
/// the two of the count, each with the low byte first.
pub proof fn lemma_read_parameters(address: u16, count: u16)
    ensures
        read_parameters(address, count) == seq![
            (address % 256) as u8,
            (address / 256) as u8,
            (count % 256) as u8,
            (count / 256) as u8,
        ],
{
    assert(read_parameters(address, count) =~= seq![
        (address % 256) as u8,
        (address / 256) as u8,
        (count % 256) as u8,
        (count / 256) as u8,
    ]);
}

} // verus!
