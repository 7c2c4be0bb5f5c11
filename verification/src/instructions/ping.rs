//! Asking a device whether it is there, and looking for devices one
//! identifier after the other.

use crate::bus::{refuse, transfer, Bus, BusView, Event, EventView, Step};
use crate::error::{CallerError, TransferError};
use crate::instructions::answer::answered;
use crate::instructions::{instruction_id, packet_id};
use crate::packet::{PacketView, StatusPacketView};
use crate::response::{ping_response, Ping, Response};
use vstd::prelude::*;

verus! {

/// The instruction that asks the device `motor_id` to name itself.
pub open spec fn ping_packet(motor_id: u8) -> PacketView {
    PacketView {
        packet_id: motor_id,
        instruction_id: instruction_id::PING,
        parameters: Seq::empty(),
    }
}

/// One step of a ping of the device `motor_id`.
///
/// Only one device can be asked at a time; to find the devices on the bus
/// there is [`scan_step`].  The answer carries the model number and the
/// firmware version.
pub open spec fn ping_step(pre: BusView, motor_id: u8, event: EventView) -> (
    BusView,
    Step<Response<Ping>>,
) {
    if !packet_id::is_unicast(motor_id) {
        refuse(pre, CallerError::InvalidPacketId { packet_id: motor_id })
    } else {
        let (post, step) = transfer(pre, ping_packet(motor_id), event);
        (post, answered(step, |status: StatusPacketView| ping_response(status)))
    }
}

/// What a scan found at one identifier, and where it goes on.
#[derive(Debug, PartialEq, Eq)]
pub struct Scanned {
    /// The identifier that was asked.
    pub motor_id: u8,
    /// The answer of the device, or why there is none.
    pub outcome: Result<Response<Ping>, TransferError>,
    /// The identifier to ask next; `None` when the scan is over.
    pub next: Option<u8>,
}

impl View for Scanned {
    type V = Scanned;

    open spec fn view(&self) -> Scanned {
        *self
    }
}

/// The identifier that a scan asks after `motor_id`.
pub open spec fn scan_next(motor_id: u8) -> Option<u8> {
    if motor_id < packet_id::MAX_UNICAST {
        Some((motor_id + 1) as u8)
    } else {
        None
    }
}

/// One step of the scan at the identifier `motor_id`: a ping whose failure
/// is a finding like any other.
pub open spec fn scan_step(pre: BusView, motor_id: u8, event: EventView) -> (
    BusView,
    Step<Scanned>,
) {
    let (post, step) = ping_step(pre, motor_id, event);
    (
        post,
        match step {
            Step::Send => Step::Send,
            Step::Listen => Step::Listen,
            Step::KeepListening => Step::KeepListening,
            Step::Done(outcome) => Step::Done(
                Ok(Scanned { motor_id, outcome, next: scan_next(motor_id) }),
            ),
        },
    )
}

/// The identifiers that a scan asks, from `motor_id` on.
pub open spec fn scan_order(motor_id: u8) -> Seq<u8>
    decreases packet_id::MAX_UNICAST - motor_id,
{
    match scan_next(motor_id) {
        Some(next) => seq![motor_id] + scan_order(next),
        None => seq![motor_id],
    }
}

impl Bus {
    /// Ping a specific motor by ID.
    ///
    /// The answer holds the model number and the firmware version of the motor.
    pub fn ping(&mut self, motor_id: u8, event: Event<'_>) -> (step: Step<Response<Ping>>)
        ensures
            (final(self)@, step@) == ping_step(old(self)@, motor_id, event@),
    {
        if motor_id > packet_id::MAX_UNICAST {
            return self.fail(
                TransferError::Caller(CallerError::InvalidPacketId { packet_id: motor_id }),
            );
        }
        let parameters: Vec<u8> = Vec::new();
        match self.transfer_single(motor_id, instruction_id::PING, parameters.as_slice(), event) {
            Step::Send => Step::Send,
            Step::Listen => Step::Listen,
            Step::KeepListening => Step::KeepListening,
            Step::Done(Ok(Some(status))) => match status.to_ping() {
                Ok(response) => Step::Done(Ok(response)),
                Err(error) => Step::Done(Err(TransferError::Read(error))),
            },
            Step::Done(Ok(None)) => Step::Done(
                Err(TransferError::Caller(CallerError::UnexpectedEvent)),
            ),
            Step::Done(Err(error)) => Step::Done(Err(error)),
        }
    }

    /// Scan the bus for motors, one identifier at a time.
    ///
    /// The scan starts at identifier 0.  Each identifier is pinged like any
    /// single motor; when the ping is over, with an answer or without, the
    /// step holds the finding and the identifier to go on with.  A motor
    /// that does not answer never ends the scan.
    pub fn scan(&mut self, motor_id: u8, event: Event<'_>) -> (step: Step<Scanned>)
        ensures
            (final(self)@, step@) == scan_step(old(self)@, motor_id, event@),
    {
        match self.ping(motor_id, event) {
            Step::Send => Step::Send,
            Step::Listen => Step::Listen,
            Step::KeepListening => Step::KeepListening,
            Step::Done(outcome) => {
                let next = if motor_id < packet_id::MAX_UNICAST {
                    Some(motor_id + 1)
                } else {
                    None
                };
                Step::Done(Ok(Scanned { motor_id, outcome, next }))
            },
        }
    }
}

/// A scan that starts at 0 asks every identifier of a single device once,
/// in rising order, and no other.
pub proof fn lemma_scan_covers(motor_id: u8)
    requires
        packet_id::is_unicast(motor_id),
    ensures
        scan_order(motor_id).len() == packet_id::MAX_UNICAST - motor_id + 1,
        forall|i: int|
            0 <= i < scan_order(motor_id).len() ==> #[trigger] scan_order(motor_id)[i] == motor_id
                + i,
    decreases packet_id::MAX_UNICAST - motor_id,
{
    if motor_id < packet_id::MAX_UNICAST {
        lemma_scan_covers((motor_id + 1) as u8);
    }
}

/// Whatever a ping comes to, the scan goes on: the step that ends a ping
/// ends the scan's look at that identifier with a finding, never with an error.
pub proof fn lemma_scan_never_fails(pre: BusView, motor_id: u8, event: EventView)
    ensures
        scan_step(pre, motor_id, event).1 matches Step::Done(result) ==> result is Ok,
{
}

} // verus!
