//! From the steps of a transfer to the steps of an instruction: what the
//! answer of the device means.

use crate::bus::{transfer_view, Step};
use crate::error::{CallerError, ReadError, TransferError};
use crate::packet::{StatusPacket, StatusPacketView};
use crate::response::{ack_response, Response};
use vstd::prelude::*;

verus! {

/// The step `step` of a transfer to one device, with its answer read by
/// `reading`.
///
/// A transfer to one device does not end without an answer; the step that
/// says so is taken as out of turn.
pub open spec fn answered<V>(
    step: Step<Option<StatusPacketView>>,
    reading: spec_fn(StatusPacketView) -> Result<V, ReadError>,
) -> Step<V> {
    match step {
        Step::Send => Step::Send,
        Step::Listen => Step::Listen,
        Step::KeepListening => Step::KeepListening,
        Step::Done(Ok(Some(status))) => match reading(status) {
            Ok(value) => Step::Done(Ok(value)),
            Err(error) => Step::Done(Err(TransferError::Read(error))),
        },
        Step::Done(Ok(None)) => Step::Done(Err(TransferError::Caller(CallerError::UnexpectedEvent))),
        Step::Done(Err(error)) => Step::Done(Err(error)),
    }
}

/// The step `step` of a read, with the status read further by `reading`.
pub open spec fn converted<V>(
    step: Step<StatusPacketView>,
    reading: spec_fn(StatusPacketView) -> Result<V, ReadError>,
) -> Step<V> {
    match step {
        Step::Send => Step::Send,
        Step::Listen => Step::Listen,
        Step::KeepListening => Step::KeepListening,
        Step::Done(Ok(status)) => match reading(status) {
            Ok(value) => Step::Done(Ok(value)),
            Err(error) => Step::Done(Err(TransferError::Read(error))),
        },
        Step::Done(Err(error)) => Step::Done(Err(error)),
    }
}

/// The step `step` of a transfer whose answer is an acknowledgement: a
/// status without parameters from one device, nothing from all of them.
pub open spec fn acknowledged(step: Step<Option<StatusPacketView>>) -> Step<Option<Response<()>>> {
    match step {
        Step::Send => Step::Send,
        Step::Listen => Step::Listen,
        Step::KeepListening => Step::KeepListening,
        Step::Done(Ok(Some(status))) => match ack_response(status) {
            Ok(response) => Step::Done(Ok(Some(response))),
            Err(error) => Step::Done(Err(TransferError::Read(error))),
        },
        Step::Done(Ok(None)) => Step::Done(Ok(None)),
        Step::Done(Err(error)) => Step::Done(Err(error)),
    }
}

/// The step `step` of a transfer that nobody answers.
pub open spec fn unanswered(step: Step<Option<StatusPacketView>>) -> Step<()> {
    match step {
        Step::Send => Step::Send,
        Step::Listen => Step::Listen,
        Step::KeepListening => Step::KeepListening,
        Step::Done(Ok(_)) => Step::Done(Ok(())),
        Step::Done(Err(error)) => Step::Done(Err(error)),
    }
}

/// Reads the answer of a transfer as an acknowledgement.
pub(crate) fn acknowledge(step: Step<Option<StatusPacket>>) -> (out: Step<Option<Response<()>>>)
    ensures
        out@ == acknowledged(transfer_view(step)),
{
    match step {
        Step::Send => Step::Send,
        Step::Listen => Step::Listen,
        Step::KeepListening => Step::KeepListening,
        Step::Done(Ok(Some(status))) => match status.to_ack() {
            Ok(response) => Step::Done(Ok(Some(response))),
            Err(error) => Step::Done(Err(TransferError::Read(error))),
        },
        Step::Done(Ok(None)) => Step::Done(Ok(None)),
        Step::Done(Err(error)) => Step::Done(Err(error)),
    }
}

} // verus!
