//! The transfer engine.
//!
//! A transfer is a conversation with the channel: write the instruction,
//! then listen until the answer is complete or time is up.  The bus decides
//! every step of it and touches neither the channel nor the clock.  Each
//! operation of [`Bus`] takes the [`Event`] that the caller saw last on the
//! channel and returns the [`Step`] to take next:
//!
//! * call the operation with [`Event::Start`];
//! * on [`Step::Send`], write [`Bus::outgoing`] to the channel and call
//!   again with [`Event::Sent`], or with [`Event::Failed`];
//! * on [`Step::Listen`], note the time; on it and on
//!   [`Step::KeepListening`], read from the channel and call again with
//!   [`Event::Received`], with [`Event::Failed`], or, once the configured
//!   timeout has passed since the time noted, with [`Event::TimedOut`];
//! * on [`Step::Done`], the transfer is over.
//!
//! The bus never tries again by itself: whoever wants a second attempt
//! starts a new transfer.

use crate::collect::{
    answers, answers_view, complete, current, find_open, gather, gather_in, give_up, give_up_in,
    open_in, open_slots, slots_view, take_answers, Answer, AnswerView, Slot, SlotView,
};
use crate::error::{CallerError, ChannelError, ReadError, TransferError, WriteError};
use crate::instructions::packet_id;
use crate::packet::{
    encode_into, encoding, frame, status_packet, PacketView, StatusPacket, StatusPacketView,
    MAX_PACKET_SIZE,
};
use crate::receive::{
    found_view, lemma_poll_consumes, lemma_poll_frame, lemma_poll_in_pieces, poll, poll_buffer,
    Found,
};
use std::time::Duration;
use vstd::prelude::*;

verus! {

/// Where a transfer stands.
#[derive(Clone, Copy, Debug, PartialEq, Eq, Structural)]
pub enum Phase {
    /// No transfer is under way.
    Idle,
    /// The instruction is staged and not yet reported as written.
    Sending,
    /// The instruction went out; the answer is awaited.
    Listening,
}

/// What the caller saw on the channel since the last step.
#[derive(Clone, Copy, Debug)]
pub enum Event<'a> {
    /// Nothing yet: a new transfer begins.
    Start,
    /// The staged frame was written completely.
    Sent,
    /// These bytes arrived.
    Received(&'a [u8]),
    /// The timeout has passed since the bus last asked to listen.
    TimedOut,
    /// The channel failed.
    Failed(ChannelError),
}

/// An [`Event`] as a mathematical value.
pub enum EventView {
    Start,
    Sent,
    Received(Seq<u8>),
    TimedOut,
    Failed(ChannelError),
}

impl<'a> View for Event<'a> {
    type V = EventView;

    open spec fn view(&self) -> EventView {
        match *self {
            Event::Start => EventView::Start,
            Event::Sent => EventView::Sent,
            Event::Received(data) => EventView::Received(data@),
            Event::TimedOut => EventView::TimedOut,
            Event::Failed(error) => EventView::Failed(error),
        }
    }
}

/// What the caller is to do next.
#[derive(Debug, PartialEq, Eq)]
pub enum Step<T> {
    /// Write the staged frame to the channel.
    Send,
    /// Start the clock and read from the channel.
    Listen,
    /// Read from the channel; the clock runs on.
    KeepListening,
    /// Nothing: the transfer is over, with this outcome.
    Done(Result<T, TransferError>),
}

impl<T: View> View for Step<T> {
    type V = Step<T::V>;

    open spec fn view(&self) -> Step<T::V> {
        match *self {
            Step::Send => Step::Send,
            Step::Listen => Step::Listen,
            Step::KeepListening => Step::KeepListening,
            Step::Done(Ok(value)) => Step::Done(Ok(value@)),
            Step::Done(Err(error)) => Step::Done(Err(error)),
        }
    }
}

/// The state of a [`Bus`].
pub struct BusView {
    /// Where the transfer stands.
    pub phase: Phase,
    /// The bytes that arrived and belong to no frame that was read yet.
    pub pending: Seq<u8>,
    /// The frame that was staged last.
    pub outgoing: Seq<u8>,
    /// The answers that a synchronized read has gathered so far.
    pub collected: Seq<SlotView>,
    /// The length of the longest frame that is accepted.
    pub read_capacity: usize,
    /// The length of the longest frame that is sent.
    pub write_capacity: usize,
    /// How long the caller is to wait for an answer.
    pub read_timeout: Duration,
}

/// The transfer engine for one channel.
///
/// The two buffers are kept from one transfer to the next, so that a
/// transfer allocates only when a frame is longer than any before it.
pub struct Bus {
    read_buffer: Vec<u8>,
    write_buffer: Vec<u8>,
    collected: Vec<Slot>,
    read_capacity: usize,
    write_capacity: usize,
    read_timeout: Duration,
    phase: Phase,
}

impl View for Bus {
    type V = BusView;

    closed spec fn view(&self) -> BusView {
        BusView {
            phase: self.phase,
            pending: self.read_buffer@,
            outgoing: self.write_buffer@,
            collected: slots_view(self.collected@),
            read_capacity: self.read_capacity,
            write_capacity: self.write_capacity,
            read_timeout: self.read_timeout,
        }
    }
}

/// The state of a bus on which nothing has happened.
pub open spec fn fresh(read_timeout: Duration, read_capacity: usize, write_capacity: usize) ->
    BusView {
    BusView {
        phase: Phase::Idle,
        pending: Seq::empty(),
        outgoing: Seq::empty(),
        collected: Seq::empty(),
        read_capacity,
        write_capacity,
        read_timeout,
    }
}

/// The state `pre` with nothing left of earlier transfers.
pub open spec fn cleared(pre: BusView) -> BusView {
    fresh(pre.read_timeout, pre.read_capacity, pre.write_capacity)
}

/// The state `pre` with the transfer over.
pub open spec fn idle(pre: BusView) -> BusView {
    BusView { phase: Phase::Idle, ..pre }
}

/// The end of a transfer with `error`.
pub open spec fn fail<V>(pre: BusView, error: TransferError) -> (BusView, Step<V>) {
    (idle(pre), Step::Done(Err(error)))
}

/// The end of a transfer because of what the caller asked.
pub open spec fn refuse<V>(pre: BusView, error: CallerError) -> (BusView, Step<V>) {
    fail(pre, TransferError::Caller(error))
}

/// The start of a transfer: what is left of earlier transfers is dropped,
/// and the frame for `packet` is staged.
pub open spec fn begin<V>(pre: BusView, packet: PacketView) -> (BusView, Step<V>) {
    let clean = cleared(pre);
    if !packet_id::is_target(packet.packet_id) {
        refuse(clean, CallerError::InvalidPacketId { packet_id: packet.packet_id })
    } else {
        match encoding(pre.write_capacity, packet) {
            Ok(bytes) => (BusView { phase: Phase::Sending, outgoing: bytes, ..clean }, Step::Send),
            Err(error) => fail(clean, TransferError::Write(error)),
        }
    }
}

/// Looks at the read buffer until it holds no complete frame or something
/// is found for the device `target`.  A good status frame of another device
/// is dropped.
pub open spec fn await_status(data: Seq<u8>, capacity: usize, target: u8) -> (Seq<u8>, Found)
    decreases data.len(),
{
    let (rest, found) = poll(data, capacity);
    if found matches Some(Ok(status)) && status.packet_id != target {
        proof {
            lemma_poll_consumes(data, capacity);
        }
        await_status(rest, capacity, target)
    } else {
        (rest, found)
    }
}

/// One step of a transfer of `packet`: the state after it, and what to do next.
///
/// * `Start` stages the frame, or refuses the packet.
/// * `Sent` ends a transfer to all devices, which none of them answers, and
///   starts the wait for any other.
/// * `Received` adds the bytes to the read buffer and looks for the answer
///   of the device.  A frame that reads badly ends the transfer.
/// * `TimedOut` ends the transfer; what is in the read buffer is dropped.
/// * `Failed` ends the transfer.
///
/// An event that does not fit the phase ends the transfer as well.
pub open spec fn transfer(pre: BusView, packet: PacketView, event: EventView) -> (
    BusView,
    Step<Option<StatusPacketView>>,
) {
    match event {
        EventView::Start => begin(pre, packet),
        EventView::Sent => if pre.phase != Phase::Sending {
            refuse(pre, CallerError::UnexpectedEvent)
        } else if packet.packet_id == packet_id::BROADCAST {
            (idle(pre), Step::Done(Ok(None)))
        } else {
            (BusView { phase: Phase::Listening, ..pre }, Step::Listen)
        },
        EventView::Received(data) => if pre.phase != Phase::Listening {
            refuse(pre, CallerError::UnexpectedEvent)
        } else {
            let (rest, found) = await_status(
                pre.pending + data,
                pre.read_capacity,
                packet.packet_id,
            );
            match found {
                None => (BusView { pending: rest, ..pre }, Step::KeepListening),
                Some(Ok(status)) => (
                    BusView { pending: rest, ..idle(pre) },
                    Step::Done(Ok(Some(status))),
                ),
                Some(Err(error)) => fail(
                    BusView { pending: rest, ..pre },
                    TransferError::Read(error),
                ),
            }
        },
        EventView::TimedOut => if pre.phase != Phase::Listening {
            refuse(pre, CallerError::UnexpectedEvent)
        } else {
            fail(
                BusView { pending: Seq::empty(), ..pre },
                TransferError::Read(ReadError::Timeout),
            )
        },
        EventView::Failed(error) => match pre.phase {
            Phase::Idle => refuse(pre, CallerError::UnexpectedEvent),
            Phase::Sending => fail(pre, TransferError::Write(WriteError::Channel(error))),
            Phase::Listening => fail(pre, TransferError::Read(ReadError::Channel(error))),
        },
    }
}

/// The step `step` of [`Bus::transfer_single`] as a mathematical value.
pub open spec fn transfer_view(step: Step<Option<StatusPacket>>) -> Step<Option<StatusPacketView>> {
    match step {
        Step::Send => Step::Send,
        Step::Listen => Step::Listen,
        Step::KeepListening => Step::KeepListening,
        Step::Done(Ok(Some(status))) => Step::Done(Ok(Some(status@))),
        Step::Done(Ok(None)) => Step::Done(Ok(None)),
        Step::Done(Err(error)) => Step::Done(Err(error)),
    }
}

/// The step after the slots of a synchronized read have changed: the
/// answers, once every slot is filled; else the wait for the next device,
/// on a clock that starts again where `next` says that the device awaited
/// is another than before.
pub open spec fn conclude(state: BusView, next: bool) -> (BusView, Step<Seq<AnswerView>>) {
    if complete(state.collected) {
        (
            BusView { collected: Seq::empty(), ..idle(state) },
            Step::Done(Ok(answers(state.collected))),
        )
    } else if next {
        (state, Step::Listen)
    } else {
        (state, Step::KeepListening)
    }
}

/// The step `step` of a synchronized read as a mathematical value.
pub open spec fn gathered_view(step: Step<Vec<Answer>>) -> Step<Seq<AnswerView>> {
    match step {
        Step::Send => Step::Send,
        Step::Listen => Step::Listen,
        Step::KeepListening => Step::KeepListening,
        Step::Done(Ok(found)) => Step::Done(Ok(answers_view(found@))),
        Step::Done(Err(error)) => Step::Done(Err(error)),
    }
}

/// Looks at `buffer` until it holds no complete frame or something is found
/// for the device `target`.
pub(crate) fn await_in(buffer: &mut Vec<u8>, capacity: usize, target: u8) -> (found: Option<
    Result<StatusPacket, ReadError>,
>)
    ensures
        (final(buffer)@, found_view(found)) == await_status(old(buffer)@, capacity, target),
{
    loop
        invariant
            await_status(buffer@, capacity, target) == await_status(old(buffer)@, capacity, target),
        decreases buffer@.len(),
    {
        proof {
            lemma_poll_consumes(buffer@, capacity);
        }
        let found = poll_buffer(buffer, capacity);
        match found {
            Some(Ok(status)) => {
                if status.packet_id == target {
                    return Some(Ok(status));
                }
            },
            other => {
                return other;
            },
        }
    }
}

impl Bus {
    /// The size that [`Bus::new`] gives both buffers.
    pub const DEFAULT_BUFFER_SIZE: usize = 128;

    /// A bus whose devices have `read_timeout` to answer, and whose frames,
    /// in either direction, are at most [`Bus::DEFAULT_BUFFER_SIZE`] bytes.
    pub fn new(read_timeout: Duration) -> (bus: Bus)
        ensures
            bus@ == fresh(read_timeout, 128, 128),
    {
        Bus::with_buffer_sizes(read_timeout, 128, 128)
    }

    /// A bus whose devices have `read_timeout` to answer, that accepts
    /// frames of up to `read_capacity` bytes and sends frames of up to
    /// `write_capacity` bytes.
    pub fn with_buffer_sizes(
        read_timeout: Duration,
        read_capacity: usize,
        write_capacity: usize,
    ) -> (bus: Bus)
        ensures
            bus@ == fresh(read_timeout, read_capacity, write_capacity),
    {
        let bus = Bus {
            read_buffer: Vec::new(),
            write_buffer: Vec::new(),
            collected: Vec::new(),
            read_capacity,
            write_capacity,
            read_timeout,
            phase: Phase::Idle,
        };
        assert(bus@.collected =~= Seq::empty());
        bus
    }

    /// Where the transfer stands.
    pub fn phase(&self) -> (phase: Phase)
        ensures
            phase == self@.phase,
    {
        self.phase
    }

    /// How long the caller is to wait for an answer: the time between
    /// [`Step::Listen`] and [`Event::TimedOut`].
    pub fn read_timeout(&self) -> (timeout: Duration)
        ensures
            timeout == self@.read_timeout,
    {
        self.read_timeout
    }

    /// The frame that was staged last: what to write on [`Step::Send`].
    pub fn outgoing(&self) -> (frame: &[u8])
        ensures
            frame@ == self@.outgoing,
    {
        self.write_buffer.as_slice()
    }

    /// Ends the transfer with `error`.
    pub(crate) fn fail<T>(&mut self, error: TransferError) -> (step: Step<T>)
        ensures
            final(self)@ == idle(old(self)@),
            step == Step::<T>::Done(Err(error)),
    {
        self.phase = Phase::Idle;
        Step::Done(Err(error))
    }

    /// Drops what is left of earlier transfers.
    pub(crate) fn reset(&mut self)
        ensures
            final(self)@ == cleared(old(self)@),
    {
        self.phase = Phase::Idle;
        self.read_buffer.clear();
        self.write_buffer.clear();
        self.collected.clear();
        assert(self@.collected =~= Seq::empty());
    }

    /// Starts a transfer: stages the frame for the given packet.
    pub(crate) fn begin<T>(&mut self, packet_id: u8, instruction_id: u8, parameters: &[u8]) -> (step:
        Step<T>)
        ensures
            (final(self)@, step) == begin::<T>(
                old(self)@,
                PacketView { packet_id, instruction_id, parameters: parameters@ },
            ),
            step is Send || step is Done,
    {
        self.reset();
        if packet_id > packet_id::BROADCAST {
            return self.fail(TransferError::Caller(CallerError::InvalidPacketId { packet_id }));
        }
        match encode_into(
            &mut self.write_buffer,
            self.write_capacity,
            packet_id,
            instruction_id,
            parameters,
        ) {
            Ok(()) => {
                self.phase = Phase::Sending;
                Step::Send
            },
            Err(error) => {
                self.write_buffer.clear();
                self.fail(TransferError::Write(error))
            },
        }
    }

    /// Opens one slot for each of `count` devices.
    pub(crate) fn open(&mut self, count: usize)
        ensures
            final(self)@ == (BusView { collected: open_slots(count as nat), ..old(self)@ }),
    {
        open_in(&mut self.collected, count);
    }

    /// The number of slots.
    pub(crate) fn slots(&self) -> (count: usize)
        ensures
            count == self@.collected.len(),
    {
        self.collected.len()
    }

    /// Turns to listening.
    pub(crate) fn listen(&mut self)
        ensures
            final(self)@ == (BusView { phase: Phase::Listening, ..old(self)@ }),
    {
        self.phase = Phase::Listening;
    }

    /// Adds `data` to the read buffer and sorts what it holds into the slots.
    pub(crate) fn gather(&mut self, data: &[u8], motor_ids: &[u8], count: u16) -> (next: bool)
        ensures
            ({
                let (rest, slots) = gather(
                    old(self)@.pending + data@,
                    old(self)@.read_capacity,
                    motor_ids@,
                    count,
                    old(self)@.collected,
                );
                &&& final(self)@ == (BusView { pending: rest, collected: slots, ..old(self)@ })
                &&& next == (current(slots) != current(old(self)@.collected))
            }),
    {
        let before = find_open(&self.collected);
        self.read_buffer.extend_from_slice(data);
        assert(self.read_buffer@ =~= old(self).read_buffer@ + data@);
        gather_in(&mut self.read_buffer, self.read_capacity, motor_ids, count, &mut self.collected);
        let after = find_open(&self.collected);
        before != after
    }

    /// Gives up the device that is awaited and drops what the read buffer holds.
    pub(crate) fn give_up(&mut self)
        ensures
            final(self)@ == (BusView {
                pending: Seq::empty(),
                collected: give_up(old(self)@.collected),
                ..old(self)@
            }),
    {
        self.read_buffer.clear();
        give_up_in(&mut self.collected);
    }

    /// Ends the synchronized read if every slot is filled, and says how to
    /// go on if not.
    pub(crate) fn conclude(&mut self, next: bool) -> (step: Step<Vec<Answer>>)
        ensures
            (final(self)@, gathered_view(step)) == conclude(old(self)@, next),
    {
        if find_open(&self.collected) >= self.collected.len() {
            let found = take_answers(&mut self.collected);
            self.phase = Phase::Idle;
            assert(slots_view(self.collected@) =~= Seq::empty());
            Step::Done(Ok(found))
        } else if next {
            Step::Listen
        } else {
            Step::KeepListening
        }
    }

    /// Sends one instruction and, unless it goes to all devices, awaits the
    /// answer of the device.
    ///
    /// The answer is that of the device `packet_id`: good status frames of
    /// other devices are passed over without a new start of the clock.  An
    /// instruction for all devices is over with `None` as soon as it is
    /// written.  The parameters are handed out as a copy: the read buffer
    /// stays with the bus.
    pub fn transfer_single(
        &mut self,
        packet_id: u8,
        instruction_id: u8,
        parameters: &[u8],
        event: Event<'_>,
    ) -> (step: Step<Option<StatusPacket>>)
        ensures
            (final(self)@, transfer_view(step)) == transfer(
                old(self)@,
                PacketView { packet_id, instruction_id, parameters: parameters@ },
                event@,
            ),
    {
        match event {
            Event::Start => self.begin(packet_id, instruction_id, parameters),
            Event::Sent => {
                if self.phase != Phase::Sending {
                    self.fail(TransferError::Caller(CallerError::UnexpectedEvent))
                } else if packet_id == packet_id::BROADCAST {
                    self.phase = Phase::Idle;
                    Step::Done(Ok(None))
                } else {
                    self.phase = Phase::Listening;
                    Step::Listen
                }
            },
            Event::Received(data) => {
                if self.phase != Phase::Listening {
                    self.fail(TransferError::Caller(CallerError::UnexpectedEvent))
                } else {
                    self.read_buffer.extend_from_slice(data);
                    assert(self.read_buffer@ =~= old(self).read_buffer@ + data@);
                    match await_in(&mut self.read_buffer, self.read_capacity, packet_id) {
                        None => Step::KeepListening,
                        Some(Ok(status)) => {
                            self.phase = Phase::Idle;
                            Step::Done(Ok(Some(status)))
                        },
                        Some(Err(error)) => self.fail(TransferError::Read(error)),
                    }
                }
            },
            Event::TimedOut => {
                if self.phase != Phase::Listening {
                    self.fail(TransferError::Caller(CallerError::UnexpectedEvent))
                } else {
                    self.read_buffer.clear();
                    self.fail(TransferError::Read(ReadError::Timeout))
                }
            },
            Event::Failed(error) => {
                match self.phase {
                    Phase::Idle => self.fail(TransferError::Caller(CallerError::UnexpectedEvent)),
                    Phase::Sending => self.fail(
                        TransferError::Write(WriteError::Channel(error)),
                    ),
                    Phase::Listening => self.fail(
                        TransferError::Read(ReadError::Channel(error)),
                    ),
                }
            },
        }
    }
}

/// The answer of the device is found as soon as its frame is in the read
/// buffer, and what follows the frame stays there.
pub proof fn lemma_await_answer(status: StatusPacketView, tail: Seq<u8>, capacity: usize)
    requires
        frame(status_packet(status)).len() <= MAX_PACKET_SIZE,
        frame(status_packet(status)).len() <= capacity,
    ensures
        await_status(frame(status_packet(status)) + tail, capacity, status.packet_id) == (
            tail,
            Some(Ok::<StatusPacketView, ReadError>(status)),
        ),
{
    lemma_poll_frame(status, tail, capacity);
}

/// A good status frame of another device counts for nothing: with it in
/// front, the read buffer gives what it gives without it.
pub proof fn lemma_await_skips_foreign(
    foreign: StatusPacketView,
    tail: Seq<u8>,
    capacity: usize,
    target: u8,
)
    requires
        frame(status_packet(foreign)).len() <= MAX_PACKET_SIZE,
        frame(status_packet(foreign)).len() <= capacity,
        foreign.packet_id != target,
    ensures
        await_status(frame(status_packet(foreign)) + tail, capacity, target) == await_status(
            tail,
            capacity,
            target,
        ),
{
    lemma_poll_frame(foreign, tail, capacity);
}

/// The frame of another device does not end the wait and does not start the
/// clock again: the bus keeps listening, with an empty read buffer, and the
/// frame of the device itself then completes the transfer.
pub proof fn lemma_foreign_frame_then_answer(
    pre: BusView,
    packet: PacketView,
    foreign: StatusPacketView,
    status: StatusPacketView,
)
    requires
        pre.phase == Phase::Listening,
        pre.pending.len() == 0,
        status.packet_id == packet.packet_id,
        foreign.packet_id != packet.packet_id,
        frame(status_packet(foreign)).len() <= MAX_PACKET_SIZE,
        frame(status_packet(foreign)).len() <= pre.read_capacity,
        frame(status_packet(status)).len() <= MAX_PACKET_SIZE,
        frame(status_packet(status)).len() <= pre.read_capacity,
    ensures
        ({
            let (waiting, first) = transfer(
                pre,
                packet,
                EventView::Received(frame(status_packet(foreign))),
            );
            let (post, second) = transfer(
                waiting,
                packet,
                EventView::Received(frame(status_packet(status))),
            );
            &&& first == Step::<Option<StatusPacketView>>::KeepListening
            &&& waiting == pre
            &&& second == Step::<Option<StatusPacketView>>::Done(Ok(Some(status)))
            &&& post == idle(pre)
        }),
{
    let empty = Seq::<u8>::empty();
    let strange = frame(status_packet(foreign));
    let good = frame(status_packet(status));
    assert(pre.pending =~= empty);
    assert(pre.pending + strange =~= strange + empty);
    assert(pre.pending + good =~= good + empty);
    lemma_await_skips_foreign(foreign, empty, pre.read_capacity, packet.packet_id);
    lemma_await_answer(status, empty, pre.read_capacity);
    assert(poll(empty, pre.read_capacity) == (empty, None::<Result<StatusPacketView, ReadError>>))
        by {
        assert(empty.skip(0) =~= empty);
    }
}

/// It makes no difference in how many pieces the bytes arrive: while the
/// answer is not found, looking at what was left, with the new bytes behind
/// it, gives what looking at all the bytes gives.
pub proof fn lemma_await_in_pieces(data: Seq<u8>, more: Seq<u8>, capacity: usize, target: u8)
    requires
        await_status(data, capacity, target).1 is None,
    ensures
        await_status(await_status(data, capacity, target).0 + more, capacity, target)
            == await_status(data + more, capacity, target),
    decreases data.len(),
{
    let (rest, found) = poll(data, capacity);
    lemma_poll_in_pieces(data, more, capacity);
    if found matches Some(Ok(status)) && status.packet_id != target {
        lemma_poll_consumes(data, capacity);
        lemma_await_in_pieces(rest, more, capacity, target);
    }
}

/// An answer in two reads is the answer in one: after bytes that did not
/// complete the transfer, more bytes lead where all the bytes at once would
/// have led.
pub proof fn lemma_received_in_pieces(
    pre: BusView,
    packet: PacketView,
    first: Seq<u8>,
    second: Seq<u8>,
)
    requires
        transfer(pre, packet, EventView::Received(first)).1 is KeepListening,
    ensures
        transfer(
            transfer(pre, packet, EventView::Received(first)).0,
            packet,
            EventView::Received(second),
        ) == transfer(pre, packet, EventView::Received(first + second)),
{
    lemma_await_in_pieces(pre.pending + first, second, pre.read_capacity, packet.packet_id);
    assert((pre.pending + first) + second =~= pre.pending + (first + second));
}

/// The frame of the device completes the transfer, with what the frame
/// carries as the outcome.
pub proof fn lemma_answer_completes(pre: BusView, packet: PacketView, status: StatusPacketView)
    requires
        pre.phase == Phase::Listening,
        pre.pending.len() == 0,
        status.packet_id == packet.packet_id,
        frame(status_packet(status)).len() <= MAX_PACKET_SIZE,
        frame(status_packet(status)).len() <= pre.read_capacity,
    ensures
        transfer(pre, packet, EventView::Received(frame(status_packet(status)))) == (
            idle(pre),
            Step::<Option<StatusPacketView>>::Done(Ok(Some(status))),
        ),
{
    let empty = Seq::<u8>::empty();
    let good = frame(status_packet(status));
    assert(pre.pending =~= empty);
    assert(pre.pending + good =~= good + empty);
    lemma_await_answer(status, empty, pre.read_capacity);
}

/// A transfer ends with a timeout when the caller says that time is up, and
/// at no other event: not at once, and not because nothing arrived.
pub proof fn lemma_timeout_only_when_told(pre: BusView, packet: PacketView, event: EventView)
    ensures
        transfer(pre, packet, event).1 == Step::<Option<StatusPacketView>>::Done(
            Err(TransferError::Read(ReadError::Timeout)),
        ) <==> pre.phase == Phase::Listening && event is TimedOut,
{
    if let EventView::Received(data) = event {
        lemma_await_never_times_out(pre.pending + data, pre.read_capacity, packet.packet_id);
    }
}

/// Nothing that arrives reads as a timeout.
pub proof fn lemma_await_never_times_out(data: Seq<u8>, capacity: usize, target: u8)
    ensures
        await_status(data, capacity, target).1 != Some(
            Err::<StatusPacketView, ReadError>(ReadError::Timeout),
        ),
    decreases data.len(),
{
    let (rest, found) = poll(data, capacity);
    if found matches Some(Ok(status)) && status.packet_id != target {
        lemma_poll_consumes(data, capacity);
        lemma_await_never_times_out(rest, capacity, target);
    }
}

/// While the channel is silent, the bus keeps listening: a read that
/// brings no bytes changes nothing.
pub proof fn lemma_silence_keeps_listening(pre: BusView, packet: PacketView)
    requires
        pre.phase == Phase::Listening,
        pre.pending.len() == 0,
    ensures
        transfer(pre, packet, EventView::Received(Seq::empty())) == (
            pre,
            Step::<Option<StatusPacketView>>::KeepListening,
        ),
        transfer(pre, packet, EventView::TimedOut) == (
            idle(pre),
            Step::<Option<StatusPacketView>>::Done(Err(TransferError::Read(ReadError::Timeout))),
        ),
{
    let empty = Seq::<u8>::empty();
    assert(pre.pending =~= empty);
    assert(pre.pending + empty =~= empty);
    assert(empty.skip(0) =~= empty);
}

/// What the packet holds counts where the transfer starts.  Afterwards only
/// the identifier of the device does.
pub proof fn lemma_packet_counts_at_start(
    pre: BusView,
    packet: PacketView,
    other: PacketView,
    event: EventView,
)
    requires
        packet.packet_id == other.packet_id,
        event is Start ==> packet == other,
    ensures
        transfer(pre, packet, event) == transfer(pre, other, event),
{
}

/// Listening is asked for once in a transfer, when the instruction has gone
/// out: no event that follows starts the clock again.
pub proof fn lemma_clock_starts_once(pre: BusView, packet: PacketView, event: EventView)
    ensures
        transfer(pre, packet, event).1 is Listen ==> event is Sent && pre.phase == Phase::Sending,
{
}

/// A transfer to all devices never waits: from its start to its end the bus
/// asks for nothing but to send.
pub proof fn lemma_broadcast_never_listens(pre: BusView, packet: PacketView, event: EventView)
    requires
        packet.packet_id == packet_id::BROADCAST,
        pre.phase != Phase::Listening,
    ensures
        transfer(pre, packet, event).0.phase != Phase::Listening,
        !(transfer(pre, packet, event).1 is Listen),
        !(transfer(pre, packet, event).1 is KeepListening),
        pre.phase == Phase::Sending && event is Sent ==> transfer(pre, packet, event) == (
            idle(pre),
            Step::<Option<StatusPacketView>>::Done(Ok(None)),
        ),
{
}

} // verus!
