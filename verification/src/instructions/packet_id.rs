//! The identifiers with a meaning of their own.

use vstd::prelude::*;

verus! {

/// The highest identifier that a single device can have.
pub const MAX_UNICAST: u8 = 0xFD;

/// The identifier that addresses every device on the bus.
pub const BROADCAST: u8 = 0xFE;

/// Whether `packet_id` addresses one device.
pub open spec fn is_unicast(packet_id: u8) -> bool {
    packet_id <= MAX_UNICAST
}

/// Whether `packet_id` can stand in an instruction: one device, or all of them.
pub open spec fn is_target(packet_id: u8) -> bool {
    packet_id <= BROADCAST
}

/// The first place from `from` on where `motor_ids` names no single
/// device; the length of `motor_ids` if there is none.
pub open spec fn first_invalid(motor_ids: Seq<u8>, from: int) -> int
    decreases motor_ids.len() - from,
{
    if from < 0 || from >= motor_ids.len() {
        motor_ids.len() as int
    } else if !is_unicast(motor_ids[from]) {
        from
    } else {
        first_invalid(motor_ids, from + 1)
    }
}

/// The first of `motor_ids` that names no single device, if there is one.
pub open spec fn invalid_among(motor_ids: Seq<u8>) -> Option<u8> {
    if first_invalid(motor_ids, 0) < motor_ids.len() {
        Some(motor_ids[first_invalid(motor_ids, 0)])
    } else {
        None
    }
}

/// Looks for an identifier among `motor_ids` that names no single device.
pub fn find_invalid(motor_ids: &[u8]) -> (found: Option<u8>)
    ensures
        found == invalid_among(motor_ids@),
{
    let mut i: usize = 0;
    while i < motor_ids.len()
        invariant
            i <= motor_ids@.len(),
            first_invalid(motor_ids@, 0) == first_invalid(motor_ids@, i as int),
        decreases motor_ids@.len() - i,
    {
        if motor_ids[i] > MAX_UNICAST {
            return Some(motor_ids[i]);
        }
        i = i + 1;
    }
    None
}

/// Where no identifier is invalid, each names a single device.
pub proof fn lemma_all_unicast(motor_ids: Seq<u8>, from: int)
    requires
        0 <= from <= motor_ids.len(),
        first_invalid(motor_ids, from) >= motor_ids.len(),
    ensures
        forall|i: int| from <= i < motor_ids.len() ==> is_unicast(motor_ids[i]),
    decreases motor_ids.len() - from,
{
    if from < motor_ids.len() {
        lemma_all_unicast(motor_ids, from + 1);
    }
}

} // verus!
