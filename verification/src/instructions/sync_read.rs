//! Reading one register of several devices with a single instruction.

use crate::bus::{
    begin, conclude, fail, gathered_view, refuse, Bus, BusView, Event, EventView, Phase, Step,
};
use crate::collect::{
    answers, complete, current, gather, give_up, lemma_first_open, lemma_slot_for, open_slots,
    slot_for, Answer, AnswerView, SlotView,
};
use crate::endian::u16_to_le;
use crate::error::{CallerError, ReadError, TransferError, WriteError};
use crate::instructions::packet_id::{find_invalid, invalid_among};
use crate::instructions::{instruction_id, packet_id};
use crate::packet::{frame, status_packet, PacketView, StatusPacketView, MAX_PACKET_SIZE};
use crate::receive::{lemma_poll_consumes, lemma_poll_frame, poll};
use crate::response::{bytes_response, respond, Response};
use vstd::prelude::*;

verus! {

/// The parameters of a synchronized read: the address, the count, and the
/// devices in the order in which they are to answer.
pub open spec fn sync_read_parameters(motor_ids: Seq<u8>, address: u16, count: u16) -> Seq<u8> {
    u16_to_le(address) + u16_to_le(count) + motor_ids
}

/// The instruction that asks each of `motor_ids` for `count` bytes at `address`.
pub open spec fn sync_read_packet(motor_ids: Seq<u8>, address: u16, count: u16) -> PacketView {
    PacketView {
        packet_id: packet_id::BROADCAST,
        instruction_id: instruction_id::SYNC_READ,
        parameters: sync_read_parameters(motor_ids, address, count),
    }
}

/// One step of a synchronized read.
///
/// * Every identifier has to name a single device; else the read is
///   refused, whatever the event.
/// * `Start` stages the instruction and opens a slot for each device.
/// * `Sent` starts the wait for the first device; with no device at all
///   the read is over.
/// * `Received` sorts what arrived into the slots.
/// * `TimedOut` gives up the device that is awaited, and no other.
/// * `Failed` ends the read.
///
/// The read is over when every slot is filled.  While one is open, the
/// clock starts again whenever the device awaited is another than before.
pub open spec fn sync_read_step(
    pre: BusView,
    motor_ids: Seq<u8>,
    address: u16,
    count: u16,
    event: EventView,
) -> (BusView, Step<Seq<AnswerView>>) {
    if invalid_among(motor_ids) is Some {
        refuse(pre, CallerError::InvalidPacketId { packet_id: invalid_among(motor_ids)->0 })
    } else {
        match event {
            EventView::Start => {
                let (post, step) = begin::<Seq<AnswerView>>(
                    pre,
                    sync_read_packet(motor_ids, address, count),
                );
                if step is Send {
                    (BusView { collected: open_slots(motor_ids.len()), ..post }, step)
                } else {
                    (post, step)
                }
            },
            EventView::Sent => if pre.phase != Phase::Sending || pre.collected.len()
                != motor_ids.len() {
                refuse(pre, CallerError::UnexpectedEvent)
            } else {
                conclude(BusView { phase: Phase::Listening, ..pre }, true)
            },
            EventView::Received(data) => if pre.phase != Phase::Listening || pre.collected.len()
                != motor_ids.len() {
                refuse(pre, CallerError::UnexpectedEvent)
            } else {
                let (rest, slots) = gather(
                    pre.pending + data,
                    pre.read_capacity,
                    motor_ids,
                    count,
                    pre.collected,
                );
                conclude(
                    BusView { pending: rest, collected: slots, ..pre },
                    current(slots) != current(pre.collected),
                )
            },
            EventView::TimedOut => if pre.phase != Phase::Listening || pre.collected.len()
                != motor_ids.len() {
                refuse(pre, CallerError::UnexpectedEvent)
            } else {
                conclude(
                    BusView {
                        pending: Seq::empty(),
                        collected: give_up(pre.collected),
                        ..pre
                    },
                    true,
                )
            },
            EventView::Failed(error) => match pre.phase {
                Phase::Idle => refuse(pre, CallerError::UnexpectedEvent),
                Phase::Sending => fail(pre, TransferError::Write(WriteError::Channel(error))),
                Phase::Listening => fail(pre, TransferError::Read(ReadError::Channel(error))),
            },
        }
    }
}

fn sync_read_request(motor_ids: &[u8], address: u16, count: u16) -> (parameters: Vec<u8>)
    ensures
        parameters@ == sync_read_parameters(motor_ids@, address, count),
{
    let mut parameters: Vec<u8> = Vec::new();
    parameters.push((address % 256) as u8);
    parameters.push((address / 256) as u8);
    parameters.push((count % 256) as u8);
    parameters.push((count / 256) as u8);
    parameters.extend_from_slice(motor_ids);
    assert(parameters@ =~= sync_read_parameters(motor_ids@, address, count));
    parameters
}

impl Bus {
    /// Read one register of several motors with a single instruction.
    ///
    /// The motors answer one after the other.  The outcome holds one entry
    /// for each of `motor_ids`, in the order of `motor_ids`: the answer of
    /// the motor, or why there is none.  A motor that does not answer, or
    /// whose answer is damaged, does not keep the others from being heard.
    /// The bytes of each answer are handed out as a copy.
    pub fn sync_read(&mut self, motor_ids: &[u8], address: u16, count: u16, event: Event<'_>) -> (step:
        Step<Vec<Answer>>)
        ensures
            (final(self)@, gathered_view(step)) == sync_read_step(
                old(self)@,
                motor_ids@,
                address,
                count,
                event@,
            ),
    {
        if let Some(packet_id) = find_invalid(motor_ids) {
            return self.fail(TransferError::Caller(CallerError::InvalidPacketId { packet_id }));
        }
        match event {
            Event::Start => {
                let parameters = sync_read_request(motor_ids, address, count);
                let step = self.begin(
                    packet_id::BROADCAST,
                    instruction_id::SYNC_READ,
                    parameters.as_slice(),
                );
                if let Step::Send = step {
                    self.open(motor_ids.len());
                }
                step
            },
            Event::Sent => {
                if self.phase() != Phase::Sending || self.slots() != motor_ids.len() {
                    self.fail(TransferError::Caller(CallerError::UnexpectedEvent))
                } else {
                    self.listen();
                    self.conclude(true)
                }
            },
            Event::Received(data) => {
                if self.phase() != Phase::Listening || self.slots() != motor_ids.len() {
                    self.fail(TransferError::Caller(CallerError::UnexpectedEvent))
                } else {
                    let next = self.gather(data, motor_ids, count);
                    self.conclude(next)
                }
            },
            Event::TimedOut => {
                if self.phase() != Phase::Listening || self.slots() != motor_ids.len() {
                    self.fail(TransferError::Caller(CallerError::UnexpectedEvent))
                } else {
                    self.give_up();
                    self.conclude(true)
                }
            },
            Event::Failed(error) => {
                match self.phase() {
                    Phase::Idle => self.fail(TransferError::Caller(CallerError::UnexpectedEvent)),
                    Phase::Sending => self.fail(
                        TransferError::Write(WriteError::Channel(error)),
                    ),
                    Phase::Listening => self.fail(
                        TransferError::Read(ReadError::Channel(error)),
                    ),
                }
            },
        }
    }
}

/// Whether each answer that `slots` holds stands in a slot of the device
/// that gave it.
pub open spec fn in_order(motor_ids: Seq<u8>, slots: Seq<SlotView>) -> bool {
    &&& slots.len() == motor_ids.len()
    &&& forall|i: int|
        0 <= i < slots.len() ==> (#[trigger] slots[i] matches Some(Ok(response))
            ==> response.motor_id == motor_ids[i])
}

/// Whatever arrives, in whatever order: there stays one slot for each
/// device, in the order of the instruction, and an answer is only ever put
/// into a slot of the device that gave it.
pub proof fn lemma_gather_in_order(
    data: Seq<u8>,
    capacity: usize,
    motor_ids: Seq<u8>,
    count: u16,
    slots: Seq<SlotView>,
)
    requires
        in_order(motor_ids, slots),
    ensures
        in_order(motor_ids, gather(data, capacity, motor_ids, count, slots).1),
    decreases data.len(),
{
    let (rest, found) = poll(data, capacity);
    if !complete(slots) {
        lemma_poll_consumes(data, capacity);
        lemma_first_open(slots, 0);
        match found {
            None => {},
            Some(Err(error)) => {
                lemma_gather_in_order(
                    rest,
                    capacity,
                    motor_ids,
                    count,
                    slots.update(current(slots), Some(Err(error))),
                );
            },
            Some(Ok(status)) => {
                let slot = slot_for(motor_ids, slots, status.packet_id, current(slots));
                lemma_slot_for(motor_ids, slots, status.packet_id, current(slots));
                if slot < slots.len() {
                    lemma_gather_in_order(
                        rest,
                        capacity,
                        motor_ids,
                        count,
                        slots.update(slot, Some(bytes_response(status, count as usize))),
                    );
                } else {
                    lemma_gather_in_order(rest, capacity, motor_ids, count, slots);
                }
            },
        }
    }
}

/// What is known of a device stays known: a slot that is filled keeps what
/// it holds, whatever else arrives.
pub proof fn lemma_gather_keeps(
    data: Seq<u8>,
    capacity: usize,
    motor_ids: Seq<u8>,
    count: u16,
    slots: Seq<SlotView>,
    at: int,
)
    requires
        slots.len() == motor_ids.len(),
        0 <= at < slots.len(),
        slots[at] is Some,
    ensures
        gather(data, capacity, motor_ids, count, slots).1.len() == slots.len(),
        gather(data, capacity, motor_ids, count, slots).1[at] == slots[at],
    decreases data.len(),
{
    let (rest, found) = poll(data, capacity);
    if !complete(slots) {
        lemma_poll_consumes(data, capacity);
        lemma_first_open(slots, 0);
        match found {
            None => {},
            Some(Err(error)) => {
                lemma_gather_keeps(
                    rest,
                    capacity,
                    motor_ids,
                    count,
                    slots.update(current(slots), Some(Err(error))),
                    at,
                );
            },
            Some(Ok(status)) => {
                let slot = slot_for(motor_ids, slots, status.packet_id, current(slots));
                lemma_slot_for(motor_ids, slots, status.packet_id, current(slots));
                if slot < slots.len() {
                    lemma_gather_keeps(
                        rest,
                        capacity,
                        motor_ids,
                        count,
                        slots.update(slot, Some(bytes_response(status, count as usize))),
                        at,
                    );
                } else {
                    lemma_gather_keeps(rest, capacity, motor_ids, count, slots, at);
                }
            },
        }
    }
}

/// The answer of a device reaches its slot whether or not the device is the
/// one awaited: with its frame in front, the read buffer gives what it
/// gives without it, on slots that hold the answer.
pub proof fn lemma_gather_answer(
    status: StatusPacketView,
    tail: Seq<u8>,
    capacity: usize,
    motor_ids: Seq<u8>,
    count: u16,
    slots: Seq<SlotView>,
)
    requires
        frame(status_packet(status)).len() <= MAX_PACKET_SIZE,
        frame(status_packet(status)).len() <= capacity,
        !complete(slots),
        slot_for(motor_ids, slots, status.packet_id, current(slots)) < slots.len(),
    ensures
        gather(frame(status_packet(status)) + tail, capacity, motor_ids, count, slots) == gather(
            tail,
            capacity,
            motor_ids,
            count,
            slots.update(
                slot_for(motor_ids, slots, status.packet_id, current(slots)),
                Some(bytes_response(status, count as usize)),
            ),
        ),
{
    lemma_poll_frame(status, tail, capacity);
}

/// Time that runs out costs the device awaited its slot and no other
/// device anything.
pub proof fn lemma_give_up_one(slots: Seq<SlotView>, at: int)
    requires
        0 <= at < slots.len(),
        at != current(slots),
    ensures
        give_up(slots).len() == slots.len(),
        give_up(slots)[at] == slots[at],
        !complete(slots) ==> give_up(slots)[current(slots)] == Some(
            Err::<Response<Seq<u8>>, ReadError>(ReadError::Timeout),
        ),
{
    lemma_first_open(slots, 0);
}

/// A device that stays silent does not keep a later one from being heard.
///
/// The first device is awaited when a later one answers.  The answer goes
/// to the slot of the later device; the bus keeps listening for the first,
/// and the clock runs on.  When time is up, the first device has a timeout
/// for an answer, the later one has what it sent, and the read goes on to
/// the devices that are left, or is over if there is none.
pub proof fn lemma_silent_device_costs_its_own_slot(
    pre: BusView,
    motor_ids: Seq<u8>,
    address: u16,
    count: u16,
    later: int,
    status: StatusPacketView,
)
    requires
        pre.phase == Phase::Listening,
        pre.pending.len() == 0,
        pre.collected == open_slots(motor_ids.len()),
        invalid_among(motor_ids) is None,
        0 < later < motor_ids.len(),
        status.packet_id == motor_ids[later],
        forall|i: int| 0 <= i < later ==> motor_ids[i] != motor_ids[later],
        status.parameters.len() == count,
        frame(status_packet(status)).len() <= MAX_PACKET_SIZE,
        frame(status_packet(status)).len() <= pre.read_capacity,
    ensures
        ({
            let answer = Ok::<Response<Seq<u8>>, ReadError>(respond(status, status.parameters));
            let silent = Err::<Response<Seq<u8>>, ReadError>(ReadError::Timeout);
            let (waiting, first) = sync_read_step(
                pre,
                motor_ids,
                address,
                count,
                EventView::Received(frame(status_packet(status))),
            );
            let (post, second) = sync_read_step(
                waiting,
                motor_ids,
                address,
                count,
                EventView::TimedOut,
            );
            &&& first == Step::<Seq<AnswerView>>::KeepListening
            &&& waiting.collected == pre.collected.update(later, Some(answer))
            &&& motor_ids.len() == 2 ==> second == Step::<Seq<AnswerView>>::Done(
                Ok(seq![silent, answer]),
            )
            &&& motor_ids.len() > 2 ==> second == Step::<Seq<AnswerView>>::Listen
                && post.collected == pre.collected.update(later, Some(answer)).update(
                0,
                Some(silent),
            )
        }),
{
    let empty = Seq::<u8>::empty();
    let good = frame(status_packet(status));
    let open = pre.collected;
    let answer = Ok::<Response<Seq<u8>>, ReadError>(respond(status, status.parameters));
    let silent = Err::<Response<Seq<u8>>, ReadError>(ReadError::Timeout);
    let heard = open.update(later, Some(answer));
    let closed = heard.update(0, Some(silent));
    assert(pre.pending + good =~= good + empty);
    assert(poll(empty, pre.read_capacity) == (empty, None::<Result<StatusPacketView, ReadError>>))
        by {
        assert(empty.skip(0) =~= empty);
    }
    assert(current(open) == 0);
    lemma_slot_for(motor_ids, open, status.packet_id, 0);
    assert(slot_for(motor_ids, open, status.packet_id, 0) == later);
    lemma_gather_answer(status, empty, pre.read_capacity, motor_ids, count, open);
    assert(current(heard) == 0);
    assert(give_up(heard) == closed);
    lemma_first_open(closed, 0);
    if motor_ids.len() == 2 {
        assert(complete(closed));
        assert(answers(closed) =~= seq![silent, answer]);
    } else {
        assert(closed[if later == 1 { 2int } else { 1int }] is None);
    }
}

} // verus!
