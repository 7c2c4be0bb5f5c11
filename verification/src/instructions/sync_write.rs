//! Writing one register of several devices with a single instruction.

use crate::bus::{
    fail, lemma_broadcast_never_listens, lemma_packet_counts_at_start, transfer, Bus, BusView,
    Event, EventView, Phase, Step,
};
use crate::endian::u16_to_le;
use crate::error::{CallerError, TransferError, WriteError};
use crate::instructions::answer::unanswered;
use crate::instructions::packet_id::{find_invalid, invalid_among};
use crate::instructions::{instruction_id, packet_id};
use crate::packet::PacketView;
use vstd::prelude::*;

verus! {

/// The byte sequences that `values` holds.
pub open spec fn value_views(values: Seq<Vec<u8>>) -> Seq<Seq<u8>> {
    values.map_values(|value: Vec<u8>| value@)
}

/// The width of the register: the length of the first value.
pub open spec fn value_width(values: Seq<Seq<u8>>) -> nat {
    if values.len() == 0 {
        0
    } else {
        values[0].len()
    }
}

/// The first place from `from` on where a value is not as wide as the
/// first; the length of `values` if there is none.
pub open spec fn first_uneven(values: Seq<Seq<u8>>, from: int) -> int
    decreases values.len() - from,
{
    if from < 0 || from >= values.len() {
        values.len() as int
    } else if values[from].len() != value_width(values) {
        from
    } else {
        first_uneven(values, from + 1)
    }
}

/// Why a synchronized write of `values` to `motor_ids` is refused, if it is.
///
/// There has to be one value for each device, each identifier has to name a
/// single device, the values have to be of one width, and the width has to
/// fit the 16 bits that the instruction has for it.
pub open spec fn sync_write_check(motor_ids: Seq<u8>, values: Seq<Seq<u8>>) -> Result<
    (),
    TransferError,
> {
    let uneven = first_uneven(values, 0);
    if motor_ids.len() != values.len() {
        Err(
            TransferError::Caller(
                CallerError::LengthMismatch {
                    identifiers: motor_ids.len() as usize,
                    values: values.len() as usize,
                },
            ),
        )
    } else if invalid_among(motor_ids) is Some {
        Err(
            TransferError::Caller(
                CallerError::InvalidPacketId { packet_id: invalid_among(motor_ids)->0 },
            ),
        )
    } else if uneven < values.len() {
        Err(
            TransferError::Caller(
                CallerError::UnevenValues {
                    index: uneven as usize,
                    actual: values[uneven].len() as usize,
                    expected: value_width(values) as usize,
                },
            ),
        )
    } else if value_width(values) > 0xFFFF {
        Err(TransferError::Write(WriteError::PacketTooLarge))
    } else {
        Ok(())
    }
}

/// The first `count` entries of a synchronized write: for each device its
/// identifier, then its value.
pub open spec fn sync_write_entries(motor_ids: Seq<u8>, values: Seq<Seq<u8>>, count: nat) -> Seq<
    u8,
>
    decreases count,
{
    if count == 0 {
        Seq::empty()
    } else {
        sync_write_entries(motor_ids, values, (count - 1) as nat) + seq![motor_ids[count - 1]]
            + values[count - 1]
    }
}

/// The parameters of a synchronized write: the address, the width of the
/// register, and the entries.
pub open spec fn sync_write_parameters(motor_ids: Seq<u8>, address: u16, values: Seq<Seq<u8>>) -> Seq<
    u8,
> {
    u16_to_le(address) + u16_to_le(value_width(values) as u16) + sync_write_entries(
        motor_ids,
        values,
        motor_ids.len(),
    )
}

/// The instruction that tells each of `motor_ids` to store its value at `address`.
pub open spec fn sync_write_packet(motor_ids: Seq<u8>, address: u16, values: Seq<Seq<u8>>) ->
    PacketView {
    PacketView {
        packet_id: packet_id::BROADCAST,
        instruction_id: instruction_id::SYNC_WRITE,
        parameters: sync_write_parameters(motor_ids, address, values),
    }
}

/// One step of a synchronized write.
///
/// What the caller asks is checked at every step, and a request that does
/// not pass ends the transfer before anything is sent.  The instruction
/// goes to all devices: it is over when it is written.
pub open spec fn sync_write_step(
    pre: BusView,
    motor_ids: Seq<u8>,
    address: u16,
    values: Seq<Seq<u8>>,
    event: EventView,
) -> (BusView, Step<()>) {
    match sync_write_check(motor_ids, values) {
        Err(error) => fail(pre, error),
        Ok(()) => {
            let (post, step) = transfer(pre, sync_write_packet(motor_ids, address, values), event);
            (post, unanswered(step))
        },
    }
}

/// Checks what the caller asks.
fn check_request(motor_ids: &[u8], values: &[Vec<u8>]) -> (r: Result<(), TransferError>)
    ensures
        r == sync_write_check(motor_ids@, value_views(values@)),
{
    let ghost views = value_views(values@);
    if motor_ids.len() != values.len() {
        return Err(
            TransferError::Caller(
                CallerError::LengthMismatch { identifiers: motor_ids.len(), values: values.len() },
            ),
        );
    }
    if let Some(packet_id) = find_invalid(motor_ids) {
        return Err(TransferError::Caller(CallerError::InvalidPacketId { packet_id }));
    }
    if values.len() == 0 {
        return Ok(());
    }
    let width: usize = values[0].len();
    assert(views[0] == values@[0]@);
    let mut k: usize = 0;
    while k < values.len()
        invariant
            k <= values@.len(),
            motor_ids@.len() == values@.len(),
            invalid_among(motor_ids@) is None,
            views == value_views(values@),
            width == value_width(views),
            first_uneven(views, 0) == first_uneven(views, k as int),
        decreases values@.len() - k,
    {
        assert(views[k as int] == values@[k as int]@);
        if values[k].len() != width {
            return Err(
                TransferError::Caller(
                    CallerError::UnevenValues {
                        index: k,
                        actual: values[k].len(),
                        expected: width,
                    },
                ),
            );
        }
        k = k + 1;
    }
    if width > 0xFFFF {
        return Err(TransferError::Write(WriteError::PacketTooLarge));
    }
    Ok(())
}

/// The parameters of a synchronized write that passed the check.
fn sync_write_request(motor_ids: &[u8], address: u16, values: &[Vec<u8>]) -> (parameters: Vec<u8>)
    requires
        sync_write_check(motor_ids@, value_views(values@)) is Ok,
    ensures
        parameters@ == sync_write_parameters(motor_ids@, address, value_views(values@)),
{
    let ghost views = value_views(values@);
    let width: usize = if values.len() == 0 {
        0
    } else {
        values[0].len()
    };
    proof {
        if values@.len() > 0 {
            assert(views[0] == values@[0]@);
        }
    }
    let mut parameters: Vec<u8> = Vec::new();
    parameters.push((address % 256) as u8);
    parameters.push((address / 256) as u8);
    parameters.push((width % 256) as u8);
    parameters.push((width / 256) as u8);
    let ghost head = parameters@;
    assert(head =~= u16_to_le(address) + u16_to_le(value_width(views) as u16));
    let mut i: usize = 0;
    while i < motor_ids.len()
        invariant
            i <= motor_ids@.len(),
            motor_ids@.len() == values@.len(),
            views == value_views(values@),
            parameters@ == head + sync_write_entries(motor_ids@, views, i as nat),
        decreases motor_ids@.len() - i,
    {
        let ghost before = parameters@;
        parameters.push(motor_ids[i]);
        parameters.extend_from_slice(values[i].as_slice());
        proof {
            assert(views[i as int] == values@[i as int]@);
            assert(parameters@ =~= before + seq![motor_ids@[i as int]] + views[i as int]);
            assert(head + sync_write_entries(motor_ids@, views, (i + 1) as nat) =~= before + seq![
                motor_ids@[i as int],
            ] + views[i as int]);
        }
        i = i + 1;
    }
    parameters
}

impl Bus {
    /// Write one register of several motors with a single instruction.
    ///
    /// `values` holds the bytes for each of `motor_ids`, in the same order;
    /// the register is as wide as the values are.  No motor answers a
    /// synchronized write.
    pub fn sync_write(
        &mut self,
        motor_ids: &[u8],
        address: u16,
        values: &[Vec<u8>],
        event: Event<'_>,
    ) -> (step: Step<()>)
        ensures
            (final(self)@, step@) == sync_write_step(
                old(self)@,
                motor_ids@,
                address,
                value_views(values@),
                event@,
            ),
    {
        if let Err(error) = check_request(motor_ids, values) {
            return self.fail(error);
        }
        let parameters = if let Event::Start = event {
            sync_write_request(motor_ids, address, values)
        } else {
            Vec::new()
        };
        proof {
            lemma_packet_counts_at_start(
                self@,
                sync_write_packet(motor_ids@, address, value_views(values@)),
                PacketView {
                    packet_id: packet_id::BROADCAST,
                    instruction_id: instruction_id::SYNC_WRITE,
                    parameters: parameters@,
                },
                event@,
            );
        }
        match self.transfer_single(
            packet_id::BROADCAST,
            instruction_id::SYNC_WRITE,
            parameters.as_slice(),
            event,
        ) {
            Step::Send => Step::Send,
            Step::Listen => Step::Listen,
            Step::KeepListening => Step::KeepListening,
            Step::Done(Ok(_)) => Step::Done(Ok(())),
            Step::Done(Err(error)) => Step::Done(Err(error)),
        }
    }
}

/// A synchronized write never listens: it is over, for better or worse, as
/// soon as the instruction is written.
pub proof fn lemma_sync_write_returns(
    pre: BusView,
    motor_ids: Seq<u8>,
    address: u16,
    values: Seq<Seq<u8>>,
    event: EventView,
)
    requires
        pre.phase != Phase::Listening,
    ensures
        sync_write_step(pre, motor_ids, address, values, event).0.phase != Phase::Listening,
        !(sync_write_step(pre, motor_ids, address, values, event).1 is Listen),
        !(sync_write_step(pre, motor_ids, address, values, event).1 is KeepListening),
        pre.phase == Phase::Sending && event is Sent && sync_write_check(motor_ids, values) is Ok
            ==> sync_write_step(pre, motor_ids, address, values, event).1 == Step::<()>::Done(
            Ok(()),
        ),
{
    lemma_broadcast_never_listens(pre, sync_write_packet(motor_ids, address, values), event);
}

/// One value too many or too few, and nothing is sent: the transfer ends
/// where it starts, with the two lengths in the error.
pub proof fn lemma_sync_write_refuses_mismatch(
    pre: BusView,
    motor_ids: Seq<u8>,
    address: u16,
    values: Seq<Seq<u8>>,
    event: EventView,
)
    requires
        motor_ids.len() != values.len(),
    ensures
        sync_write_step(pre, motor_ids, address, values, event).1 == Step::<()>::Done(
            Err(
                TransferError::Caller(
                    CallerError::LengthMismatch {
                        identifiers: motor_ids.len() as usize,
                        values: values.len() as usize,
                    },
                ),
            ),
        ),
        sync_write_step(pre, motor_ids, address, values, event).0.phase == Phase::Idle,
        sync_write_step(pre, motor_ids, address, values, event).0.outgoing == pre.outgoing,
{
}

} // verus!
