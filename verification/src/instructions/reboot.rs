//! Restarting devices.

use crate::bus::{
    idle, lemma_broadcast_never_listens, transfer, Bus, BusView, Event, EventView, Phase, Step,
};
use crate::instructions::answer::{acknowledge, acknowledged};
use crate::instructions::{instruction_id, packet_id};
use crate::packet::PacketView;
use crate::response::Response;
use vstd::prelude::*;

verus! {

/// The instruction that tells `motor_id` to restart.
pub open spec fn reboot_packet(motor_id: u8) -> PacketView {
    PacketView {
        packet_id: motor_id,
        instruction_id: instruction_id::REBOOT,
        parameters: Seq::empty(),
    }
}

/// One step of a reboot of `motor_id`.
///
/// One device acknowledges with a status without parameters.  Sent to all
/// devices, the instruction is over when it is written.
pub open spec fn reboot_step(pre: BusView, motor_id: u8, event: EventView) -> (
    BusView,
    Step<Option<Response<()>>>,
) {
    let (post, step) = transfer(pre, reboot_packet(motor_id), event);
    (post, acknowledged(step))
}

impl Bus {
    /// Send a reboot command to a specific motor, or to all of them.
    ///
    /// A single motor acknowledges the command; the acknowledgement is
    /// `Some`.  For the identifier of all motors nothing is awaited, and
    /// the outcome is `None`.
    pub fn reboot(&mut self, motor_id: u8, event: Event<'_>) -> (step: Step<Option<Response<()>>>)
        ensures
            (final(self)@, step@) == reboot_step(old(self)@, motor_id, event@),
    {
        let parameters: Vec<u8> = Vec::new();
        let step = self.transfer_single(
            motor_id,
            instruction_id::REBOOT,
            parameters.as_slice(),
            event,
        );
        acknowledge(step)
    }
}

/// A reboot of all devices never listens, and is over, without an answer,
/// as soon as the instruction is written.
pub proof fn lemma_broadcast_reboot_returns(pre: BusView, event: EventView)
    requires
        pre.phase != Phase::Listening,
    ensures
        reboot_step(pre, packet_id::BROADCAST, event).0.phase != Phase::Listening,
        !(reboot_step(pre, packet_id::BROADCAST, event).1 is Listen),
        !(reboot_step(pre, packet_id::BROADCAST, event).1 is KeepListening),
        pre.phase == Phase::Sending && event is Sent ==> reboot_step(
            pre,
            packet_id::BROADCAST,
            event,
        ) == (idle(pre), Step::<Option<Response<()>>>::Done(Ok(None))),
{
    lemma_broadcast_never_listens(pre, reboot_packet(packet_id::BROADCAST), event);
}

} // verus!
