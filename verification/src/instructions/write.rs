//! Writing registers of one device, or of all devices at once.

use crate::bus::{
    idle, lemma_broadcast_never_listens, lemma_packet_counts_at_start, transfer, Bus, BusView,
    Event, EventView, Phase, Step,
};
use crate::endian::{u16_to_le, u32_to_le};
use crate::instructions::answer::{acknowledge, acknowledged};
use crate::instructions::{instruction_id, packet_id};
use crate::packet::PacketView;
use crate::response::Response;
use vstd::prelude::*;

verus! {

/// The parameters of a write instruction: the address, then the bytes.
pub open spec fn write_parameters(address: u16, data: Seq<u8>) -> Seq<u8> {
    u16_to_le(address) + data
}

/// The instruction that tells `motor_id` to store `data` at `address`.
pub open spec fn write_packet(motor_id: u8, address: u16, data: Seq<u8>) -> PacketView {
    PacketView {
        packet_id: motor_id,
        instruction_id: instruction_id::WRITE,
        parameters: write_parameters(address, data),
    }
}

/// One step of a write of `data` at `address` to `motor_id`.
///
/// One device acknowledges with a status without parameters.  Sent to all
/// devices, the instruction is over when it is written.
pub open spec fn write_step(
    pre: BusView,
    motor_id: u8,
    address: u16,
    data: Seq<u8>,
    event: EventView,
) -> (BusView, Step<Option<Response<()>>>) {
    let (post, step) = transfer(pre, write_packet(motor_id, address, data), event);
    (post, acknowledged(step))
}

/// The parameters of a write of `data` at `address`, where the transfer
/// starts; later steps need none.
fn write_request(address: u16, data: &[u8], event: &Event<'_>) -> (parameters: Vec<u8>)
    ensures
        event@ is Start ==> parameters@ == write_parameters(address, data@),
{
    let mut parameters: Vec<u8> = Vec::new();
    if let Event::Start = event {
        parameters.push((address % 256) as u8);
        parameters.push((address / 256) as u8);
        parameters.extend_from_slice(data);
        assert(parameters@ =~= u16_to_le(address) + data@);
    }
    parameters
}

impl Bus {
    /// Write an arbitrary number of bytes to a specific motor, or to all of them.
    ///
    /// A single motor acknowledges the write; the acknowledgement is `Some`.
    /// For the identifier of all motors nothing is awaited, and the outcome
    /// is `None`.
    pub fn write(&mut self, motor_id: u8, address: u16, data: &[u8], event: Event<'_>) -> (step:
        Step<Option<Response<()>>>)
        ensures
            (final(self)@, step@) == write_step(old(self)@, motor_id, address, data@, event@),
    {
        let parameters = write_request(address, data, &event);
        proof {
            lemma_packet_counts_at_start(
                self@,
                write_packet(motor_id, address, data@),
                PacketView {
                    packet_id: motor_id,
                    instruction_id: instruction_id::WRITE,
                    parameters: parameters@,
                },
                event@,
            );
        }
        let step = self.transfer_single(
            motor_id,
            instruction_id::WRITE,
            parameters.as_slice(),
            event,
        );
        acknowledge(step)
    }

    /// Write an 8 bit value to a specific motor, or to all of them.
    pub fn write_u8(&mut self, motor_id: u8, address: u16, value: u8, event: Event<'_>) -> (step:
        Step<Option<Response<()>>>)
        ensures
            (final(self)@, step@) == write_step(old(self)@, motor_id, address, seq![value], event@),
    {
        let data: [u8; 1] = [value];
        assert(data@ =~= seq![value]);
        self.write(motor_id, address, data.as_slice(), event)
    }

    /// Write a 16 bit value to a specific motor, or to all of them.
    pub fn write_u16(&mut self, motor_id: u8, address: u16, value: u16, event: Event<'_>) -> (step:
        Step<Option<Response<()>>>)
        ensures
            (final(self)@, step@) == write_step(
                old(self)@,
                motor_id,
                address,
                u16_to_le(value),
                event@,
            ),
    {
        let data: [u8; 2] = [(value % 256) as u8, (value / 256) as u8];
        assert(data@ =~= u16_to_le(value));
        self.write(motor_id, address, data.as_slice(), event)
    }

    /// Write a 32 bit value to a specific motor, or to all of them.
    pub fn write_u32(&mut self, motor_id: u8, address: u16, value: u32, event: Event<'_>) -> (step:
        Step<Option<Response<()>>>)
        ensures
            (final(self)@, step@) == write_step(
                old(self)@,
                motor_id,
                address,
                u32_to_le(value),
                event@,
            ),
    {
        let data: [u8; 4] = [
            (value % 256) as u8,
            ((value / 256) % 256) as u8,
            ((value / 65536) % 256) as u8,
            (value / 16777216) as u8,
        ];
        assert(data@ =~= u32_to_le(value));
        self.write(motor_id, address, data.as_slice(), event)
    }
}

/// A write to all devices never listens, and is over, without an answer,
/// as soon as the instruction is written.
pub proof fn lemma_broadcast_write_returns(
    pre: BusView,
    address: u16,
    data: Seq<u8>,
    event: EventView,
)
    requires
        pre.phase != Phase::Listening,
    ensures
        write_step(pre, packet_id::BROADCAST, address, data, event).0.phase != Phase::Listening,
        !(write_step(pre, packet_id::BROADCAST, address, data, event).1 is Listen),
        !(write_step(pre, packet_id::BROADCAST, address, data, event).1 is KeepListening),
        pre.phase == Phase::Sending && event is Sent ==> write_step(
            pre,
            packet_id::BROADCAST,
            address,
            data,
            event,
        ) == (idle(pre), Step::<Option<Response<()>>>::Done(Ok(None))),
{
    lemma_broadcast_never_listens(pre, write_packet(packet_id::BROADCAST, address, data), event);
}

} // verus!
