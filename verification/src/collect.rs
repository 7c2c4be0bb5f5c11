//! Gathering the answers to a synchronized read.
//!
//! The instruction names the devices in an order, and each device has a
//! slot, in that order.  The bus waits for one device at a time: the first
//! whose slot is open.  What arrives meanwhile is sorted into the slots:
//!
//! * a good status frame goes to the first open slot of its device, be it
//!   the current one or a later one;
//! * a good status frame of a device without an open slot is dropped;
//! * a frame that reads badly is the answer of the current device.
//!
//! So the answers end up in the order of the instruction, in whatever order
//! they arrive, and a device that stays silent costs only its own slot.

use crate::error::ReadError;
use crate::packet::result_view;
use crate::receive::{lemma_poll_consumes, lemma_poll_in_pieces, poll, poll_buffer};
use crate::response::{bytes_response, Response};
use vstd::prelude::*;

verus! {

/// The place of one device in a synchronized read: empty until the answer
/// of the device, or the lack of it, is known.
pub type Slot = Option<Result<Response<Vec<u8>>, ReadError>>;

/// A [`Slot`] as a mathematical value.
pub type SlotView = Option<Result<Response<Seq<u8>>, ReadError>>;

/// The answer of one device to a synchronized read.
pub type Answer = Result<Response<Vec<u8>>, ReadError>;

/// An [`Answer`] as a mathematical value.
pub type AnswerView = Result<Response<Seq<u8>>, ReadError>;

/// The slot `slot` as a mathematical value.
pub open spec fn slot_view(slot: Slot) -> SlotView {
    match slot {
        None => None,
        Some(Ok(response)) => Some(Ok(response@)),
        Some(Err(error)) => Some(Err(error)),
    }
}

/// The slots `slots` as mathematical values.
pub open spec fn slots_view(slots: Seq<Slot>) -> Seq<SlotView> {
    slots.map_values(|slot: Slot| slot_view(slot))
}

/// The answers `answers` as mathematical values.
pub open spec fn answers_view(answers: Seq<Answer>) -> Seq<AnswerView> {
    answers.map_values(|answer: Answer| result_view(answer))
}

/// `count` open slots.
pub open spec fn open_slots(count: nat) -> Seq<SlotView> {
    Seq::new(count, |i: int| None)
}

/// The first open slot from `from` on; the number of slots if there is none.
pub open spec fn first_open(slots: Seq<SlotView>, from: int) -> int
    decreases slots.len() - from,
{
    if from < 0 || from >= slots.len() {
        slots.len() as int
    } else if slots[from] is None {
        from
    } else {
        first_open(slots, from + 1)
    }
}

/// The slot of the device that is awaited.
pub open spec fn current(slots: Seq<SlotView>) -> int {
    first_open(slots, 0)
}

/// Whether every slot is filled.
pub open spec fn complete(slots: Seq<SlotView>) -> bool {
    current(slots) >= slots.len()
}

/// The first open slot from `from` on that belongs to the device
/// `motor_id`; the number of slots if there is none.
pub open spec fn slot_for(motor_ids: Seq<u8>, slots: Seq<SlotView>, motor_id: u8, from: int) -> int
    decreases slots.len() - from,
{
    if from < 0 || from >= slots.len() || from >= motor_ids.len() {
        slots.len() as int
    } else if slots[from] is None && motor_ids[from] == motor_id {
        from
    } else {
        slot_for(motor_ids, slots, motor_id, from + 1)
    }
}

/// Sorts what the read buffer `data` holds into `slots`, until no complete
/// frame is left or every slot is filled: what is left in the buffer, and
/// the slots.
pub open spec fn gather(
    data: Seq<u8>,
    capacity: usize,
    motor_ids: Seq<u8>,
    count: u16,
    slots: Seq<SlotView>,
) -> (Seq<u8>, Seq<SlotView>)
    decreases data.len(),
{
    let (rest, found) = poll(data, capacity);
    if complete(slots) {
        (data, slots)
    } else {
        proof {
            lemma_poll_consumes(data, capacity);
        }
        match found {
            None => (rest, slots),
            Some(Err(error)) => gather(
                rest,
                capacity,
                motor_ids,
                count,
                slots.update(current(slots), Some(Err(error))),
            ),
            Some(Ok(status)) => {
                let slot = slot_for(motor_ids, slots, status.packet_id, current(slots));
                if slot < slots.len() {
                    gather(
                        rest,
                        capacity,
                        motor_ids,
                        count,
                        slots.update(slot, Some(bytes_response(status, count as usize))),
                    )
                } else {
                    gather(rest, capacity, motor_ids, count, slots)
                }
            },
        }
    }
}

/// The slots with the device that is awaited given up: its answer did not
/// come in time.
pub open spec fn give_up(slots: Seq<SlotView>) -> Seq<SlotView> {
    if complete(slots) {
        slots
    } else {
        slots.update(current(slots), Some(Err(ReadError::Timeout)))
    }
}

/// What a slot holds for the caller.  An open slot reads as a device that
/// did not answer.
pub open spec fn answer_of(slot: SlotView) -> AnswerView {
    match slot {
        Some(answer) => answer,
        None => Err(ReadError::Timeout),
    }
}

/// What the slots hold for the caller, in their order.
pub open spec fn answers(slots: Seq<SlotView>) -> Seq<AnswerView> {
    slots.map_values(|slot: SlotView| answer_of(slot))
}

/// The first open slot lies within the slots or just behind them, and no
/// slot before it is open.
pub proof fn lemma_first_open(slots: Seq<SlotView>, from: int)
    requires
        0 <= from <= slots.len(),
    ensures
        from <= first_open(slots, from) <= slots.len(),
        first_open(slots, from) < slots.len() ==> slots[first_open(slots, from)] is None,
        forall|i: int| from <= i < first_open(slots, from) ==> slots[i] is Some,
    decreases slots.len() - from,
{
    if from < slots.len() && slots[from] is Some {
        lemma_first_open(slots, from + 1);
    }
}

/// The slot found for a device is open and belongs to it, and no open slot
/// of the device comes before it.
pub proof fn lemma_slot_for(motor_ids: Seq<u8>, slots: Seq<SlotView>, motor_id: u8, from: int)
    requires
        0 <= from <= slots.len(),
        motor_ids.len() == slots.len(),
    ensures
        from <= slot_for(motor_ids, slots, motor_id, from) <= slots.len(),
        slot_for(motor_ids, slots, motor_id, from) < slots.len() ==> {
            &&& slots[slot_for(motor_ids, slots, motor_id, from)] is None
            &&& motor_ids[slot_for(motor_ids, slots, motor_id, from)] == motor_id
        },
        forall|i: int|
            from <= i < slot_for(motor_ids, slots, motor_id, from) ==> !(slots[i] is None
                && motor_ids[i] == motor_id),
    decreases slots.len() - from,
{
    if from < slots.len() && !(slots[from] is None && motor_ids[from] == motor_id) {
        lemma_slot_for(motor_ids, slots, motor_id, from + 1);
    }
}

/// It makes no difference in how many pieces the bytes arrive: sorting one
/// piece and then, with what it left, the next, fills the slots as sorting
/// both at once does.
pub proof fn lemma_gather_in_pieces(
    data: Seq<u8>,
    more: Seq<u8>,
    capacity: usize,
    motor_ids: Seq<u8>,
    count: u16,
    slots: Seq<SlotView>,
)
    ensures
        ({
            let (rest, sorted) = gather(data, capacity, motor_ids, count, slots);
            gather(rest + more, capacity, motor_ids, count, sorted) == gather(
                data + more,
                capacity,
                motor_ids,
                count,
                slots,
            )
        }),
    decreases data.len(),
{
    let (rest, found) = poll(data, capacity);
    if !complete(slots) {
        lemma_poll_consumes(data, capacity);
        lemma_poll_in_pieces(data, more, capacity);
        match found {
            None => {},
            Some(Err(error)) => {
                lemma_gather_in_pieces(
                    rest,
                    more,
                    capacity,
                    motor_ids,
                    count,
                    slots.update(current(slots), Some(Err(error))),
                );
            },
            Some(Ok(status)) => {
                let slot = slot_for(motor_ids, slots, status.packet_id, current(slots));
                if slot < slots.len() {
                    lemma_gather_in_pieces(
                        rest,
                        more,
                        capacity,
                        motor_ids,
                        count,
                        slots.update(slot, Some(bytes_response(status, count as usize))),
                    );
                } else {
                    lemma_gather_in_pieces(rest, more, capacity, motor_ids, count, slots);
                }
            },
        }
    }
}

/// Finds the slot of the device that is awaited.
pub(crate) fn find_open(slots: &Vec<Slot>) -> (at: usize)
    ensures
        at == current(slots_view(slots@)),
        at <= slots@.len(),
{
    let ghost views = slots_view(slots@);
    let mut at: usize = 0;
    while at < slots.len()
        invariant
            at <= slots@.len(),
            views == slots_view(slots@),
            first_open(views, 0) == first_open(views, at as int),
        decreases slots@.len() - at,
    {
        assert(views[at as int] == slot_view(slots@[at as int]));
        if slots[at].is_none() {
            return at;
        }
        at = at + 1;
    }
    at
}

/// Finds the first open slot of the device `motor_id` from `from` on.
pub(crate) fn find_slot(motor_ids: &[u8], slots: &Vec<Slot>, motor_id: u8, from: usize) -> (at:
    usize)
    requires
        from <= slots@.len(),
    ensures
        at == slot_for(motor_ids@, slots_view(slots@), motor_id, from as int),
        at <= slots@.len(),
        at < slots@.len() ==> at < motor_ids@.len(),
{
    let ghost views = slots_view(slots@);
    let mut at: usize = from;
    while at < slots.len() && at < motor_ids.len()
        invariant
            from <= at <= slots@.len(),
            views == slots_view(slots@),
            slot_for(motor_ids@, views, motor_id, from as int) == slot_for(
                motor_ids@,
                views,
                motor_id,
                at as int,
            ),
        decreases slots@.len() - at,
    {
        assert(views[at as int] == slot_view(slots@[at as int]));
        if slots[at].is_none() && motor_ids[at] == motor_id {
            return at;
        }
        at = at + 1;
    }
    slots.len()
}

/// Sorts what `buffer` holds into `slots`.
pub(crate) fn gather_in(
    buffer: &mut Vec<u8>,
    capacity: usize,
    motor_ids: &[u8],
    count: u16,
    slots: &mut Vec<Slot>,
)
    ensures
        (final(buffer)@, slots_view(final(slots)@)) == gather(
            old(buffer)@,
            capacity,
            motor_ids@,
            count,
            slots_view(old(slots)@),
        ),
{
    loop
        invariant
            gather(buffer@, capacity, motor_ids@, count, slots_view(slots@)) == gather(
                old(buffer)@,
                capacity,
                motor_ids@,
                count,
                slots_view(old(slots)@),
            ),
        decreases buffer@.len(),
    {
        let ghost views = slots_view(slots@);
        let awaited = find_open(slots);
        if awaited >= slots.len() {
            return ;
        }
        proof {
            lemma_poll_consumes(buffer@, capacity);
        }
        match poll_buffer(buffer, capacity) {
            None => {
                return ;
            },
            Some(Err(error)) => {
                slots[awaited] = Some(Err(error));
                assert(slots_view(slots@) =~= views.update(awaited as int, Some(Err(error))));
            },
            Some(Ok(status)) => {
                let at = find_slot(motor_ids, slots, status.packet_id, awaited);
                if at < slots.len() {
                    let ghost answer = bytes_response(status@, count as usize);
                    let response = status.into_bytes(count as usize);
                    slots[at] = Some(response);
                    assert(slots_view(slots@) =~= views.update(at as int, Some(answer)));
                }
            },
        }
    }
}

/// Fills the slot of the device that is awaited: it did not answer in time.
pub(crate) fn give_up_in(slots: &mut Vec<Slot>)
    ensures
        slots_view(final(slots)@) == give_up(slots_view(old(slots)@)),
{
    let ghost views = slots_view(slots@);
    let awaited = find_open(slots);
    if awaited < slots.len() {
        slots[awaited] = Some(Err(ReadError::Timeout));
        assert(slots_view(slots@) =~= views.update(
            awaited as int,
            Some(Err(ReadError::Timeout)),
        ));
    }
}

/// Opens `count` slots in place of those that `slots` holds.
pub(crate) fn open_in(slots: &mut Vec<Slot>, count: usize)
    ensures
        slots_view(final(slots)@) == open_slots(count as nat),
{
    slots.clear();
    let mut i: usize = 0;
    while i < count
        invariant
            i <= count,
            slots@.len() == i,
            forall|k: int| 0 <= k < i ==> slots@[k] is None,
        decreases count - i,
    {
        slots.push(None);
        i = i + 1;
    }
    assert(slots_view(slots@) =~= open_slots(count as nat));
}

/// Takes what the slots hold out of them, in their order.
pub(crate) fn take_answers(slots: &mut Vec<Slot>) -> (out: Vec<Answer>)
    ensures
        answers_view(out@) == answers(slots_view(old(slots)@)),
        final(slots)@.len() == 0,
{
    let ghost views = slots_view(slots@);
    let mut out: Vec<Answer> = Vec::new();
    while slots.len() > 0
        invariant
            out@.len() + slots@.len() == views.len(),
            forall|k: int| 0 <= k < out@.len() ==> result_view(out@[k]) == answer_of(views[k]),
            forall|k: int|
                0 <= k < slots@.len() ==> slot_view(#[trigger] slots@[k]) == views[out@.len() + k],
        decreases slots@.len(),
    {
        let ghost before = slots@;
        let slot = slots.remove(0);
        assert(forall|k: int| 0 <= k < slots@.len() ==> slots@[k] == before[k + 1]);
        assert(slot_view(before[0]) == views[out@.len() as int]);
        match slot {
            Some(answer) => {
                out.push(answer);
            },
            None => {
                out.push(Err(ReadError::Timeout));
            },
        }
    }
    assert(answers_view(out@) =~= answers(views));
    out
}

} // verus!
