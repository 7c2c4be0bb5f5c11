//! Finding status frames in the bytes that arrive.
//!
//! What arrives is a stream: noise, an echo, half a frame, two frames at
//! once.  The read buffer holds what has arrived and was not yet used.  A
//! look at the buffer first drops whatever cannot start a frame, then waits
//! until the length field is there, then until the frame is.

use crate::endian::u16_from_le;
use crate::error::ReadError;
use crate::packet::{
    decode_status, frame, lemma_decode_status_frame, lemma_frame_layout, result_view,
    status_packet, StatusPacket, StatusPacketView, HEADER_SIZE, MAX_PACKET_SIZE,
};
use vstd::prelude::*;
use vstd::slice::slice_subrange;

verus! {

/// Whether `data` may be the start of a frame: as far as it goes, it agrees
/// with the marker.
pub open spec fn may_start_frame(data: Seq<u8>) -> bool {
    &&& data.len() > 0 ==> data[0] == 0xFF
    &&& data.len() > 1 ==> data[1] == 0xFF
    &&& data.len() > 2 ==> data[2] == 0xFD
    &&& data.len() > 3 ==> data[3] == 0x00
}

/// The number of bytes at the start of `data` that belong to no frame.
pub open spec fn garbage(data: Seq<u8>) -> nat
    decreases data.len(),
{
    if may_start_frame(data) {
        0
    } else {
        1 + garbage(data.skip(1))
    }
}

/// What a look at the read buffer finds.
pub type Found = Option<Result<StatusPacketView, ReadError>>;

/// A look at the read buffer `data`, where no frame may be longer than
/// `capacity`: what is left in the buffer, and what was found.
///
/// Nothing is found while the frame at the start of the buffer is
/// incomplete.  A frame that is complete leaves the buffer, whether it reads
/// well or not.  A length that no frame can have makes the marker before it
/// leave the buffer.
pub open spec fn poll(data: Seq<u8>, capacity: usize) -> (Seq<u8>, Found) {
    let rest = data.skip(garbage(data) as int);
    let declared = u16_from_le(rest.subrange(5, 7)) as usize;
    let total = HEADER_SIZE + declared;
    if rest.len() < HEADER_SIZE {
        (rest, None)
    } else if declared < 3 {
        (rest.skip(4), Some(Err(ReadError::InvalidLength { declared })))
    } else if total > capacity {
        (rest.skip(4), Some(Err(ReadError::BufferTooSmall { required: total as usize, capacity })))
    } else if rest.len() < total {
        (rest, None)
    } else {
        (rest.skip(total), Some(decode_status(rest.take(total))))
    }
}

/// What was found, with the packet taken as a mathematical value.
pub open spec fn found_view(found: Option<Result<StatusPacket, ReadError>>) -> Found {
    match found {
        Some(result) => Some(result_view(result)),
        None => None,
    }
}

/// No more than all of the buffer is garbage.
pub proof fn lemma_garbage_bound(data: Seq<u8>)
    ensures
        garbage(data) <= data.len(),
        may_start_frame(data.skip(garbage(data) as int)),
    decreases data.len(),
{
    if may_start_frame(data) {
        assert(data.skip(0) =~= data);
    } else {
        lemma_garbage_bound(data.skip(1));
        assert(data.skip(1).skip(garbage(data.skip(1)) as int) =~= data.skip(garbage(data) as int));
    }
}

/// A look never adds to the buffer, and takes at least four bytes from it
/// where it finds something.
pub proof fn lemma_poll_consumes(data: Seq<u8>, capacity: usize)
    ensures
        poll(data, capacity).0.len() <= data.len(),
        poll(data, capacity).1 is Some ==> poll(data, capacity).0.len() + 4 <= data.len(),
{
    lemma_garbage_bound(data);
}

/// What starts no frame does not start one when more bytes follow: the
/// garbage of a buffer that has grown is the garbage it had, and the
/// garbage of what was left with the new bytes behind it.
pub proof fn lemma_garbage_in_pieces(data: Seq<u8>, more: Seq<u8>)
    ensures
        garbage(data + more) == garbage(data) + garbage(data.skip(garbage(data) as int) + more),
    decreases data.len(),
{
    if may_start_frame(data) {
        assert(data.skip(0) =~= data);
    } else {
        assert(!may_start_frame(data + more));
        assert((data + more).skip(1) =~= data.skip(1) + more);
        lemma_garbage_in_pieces(data.skip(1), more);
        lemma_garbage_bound(data.skip(1));
        assert(data.skip(1).skip(garbage(data.skip(1)) as int) =~= data.skip(garbage(data) as int));
    }
}

/// It makes no difference in how many pieces the bytes arrive.  While
/// nothing is found, a look at what the last look left, with the new bytes
/// behind it, finds what a look at all the bytes finds.  And what is found
/// does not depend on the bytes behind it: they stay in the buffer.
pub proof fn lemma_poll_in_pieces(data: Seq<u8>, more: Seq<u8>, capacity: usize)
    ensures
        poll(data, capacity).1 is None ==> poll(poll(data, capacity).0 + more, capacity) == poll(
            data + more,
            capacity,
        ),
        poll(data, capacity).1 is Some ==> poll(data + more, capacity) == (
            poll(data, capacity).0 + more,
            poll(data, capacity).1,
        ),
{
    let skipped = garbage(data);
    let rest = data.skip(skipped as int);
    lemma_garbage_bound(data);
    lemma_garbage_in_pieces(data, more);
    assert((data + more).skip(skipped as int) =~= rest + more);
    if poll(data, capacity).1 is None {
        let further = garbage(rest + more);
        lemma_garbage_bound(rest + more);
        assert((data + more).skip((skipped + further) as int) =~= (rest + more).skip(
            further as int,
        ));
        assert(poll(data, capacity).0 == rest);
    } else {
        let declared = u16_from_le(rest.subrange(5, 7)) as usize;
        let total = HEADER_SIZE + declared;
        assert(may_start_frame(rest + more));
        assert((rest + more).skip(0) =~= rest + more);
        assert((rest + more).subrange(5, 7) =~= rest.subrange(5, 7));
        assert((rest + more).skip(4) =~= rest.skip(4) + more);
        if declared >= 3 && total <= capacity {
            assert((rest + more).skip(total as int) =~= rest.skip(total as int) + more);
            assert((rest + more).take(total as int) =~= rest.take(total as int));
        }
    }
}

/// A status frame at the start of the buffer is found whole, whatever
/// follows it, and what follows it stays in the buffer.
pub proof fn lemma_poll_frame(status: StatusPacketView, tail: Seq<u8>, capacity: usize)
    requires
        frame(status_packet(status)).len() <= MAX_PACKET_SIZE,
        frame(status_packet(status)).len() <= capacity,
    ensures
        poll(frame(status_packet(status)) + tail, capacity) == (
            tail,
            Some(Ok::<StatusPacketView, ReadError>(status)),
        ),
{
    let bytes = frame(status_packet(status));
    let data = bytes + tail;
    lemma_frame_layout(status_packet(status));
    lemma_decode_status_frame(status);
    assert(may_start_frame(data));
    assert(data.skip(0) =~= data);
    assert(data.subrange(5, 7) =~= bytes.subrange(5, 7));
    assert(data.take(bytes.len() as int) =~= bytes);
    assert(data.skip(bytes.len() as int) =~= tail);
}

/// Where the first `count` bytes start no frame, the garbage is `count`
/// bytes and the garbage behind them.
proof fn lemma_garbage_skip(data: Seq<u8>, count: nat)
    requires
        count <= data.len(),
        forall|i: int| 0 <= i < count ==> !may_start_frame(#[trigger] data.skip(i)),
    ensures
        garbage(data) == count + garbage(data.skip(count as int)),
    decreases count,
{
    if count == 0 {
        assert(data.skip(0) =~= data);
    } else {
        assert(!may_start_frame(data.skip(0)));
        assert(data.skip(0) =~= data);
        let tail = data.skip(1);
        assert forall|i: int| 0 <= i < count - 1 implies !may_start_frame(
            #[trigger] tail.skip(i),
        ) by {
            assert(tail.skip(i) =~= data.skip(i + 1));
        }
        lemma_garbage_skip(tail, (count - 1) as nat);
        assert(tail.skip(count - 1) =~= data.skip(count as int));
    }
}

/// Drops the first `count` bytes of `buffer`, in place.
pub(crate) fn consume(buffer: &mut Vec<u8>, count: usize)
    requires
        count <= old(buffer)@.len(),
    ensures
        final(buffer)@ == old(buffer)@.skip(count as int),
{
    let kept: usize = buffer.len() - count;
    let mut i: usize = 0;
    if count > 0 {
        while i < kept
            invariant
                i <= kept,
                kept + count == old(buffer)@.len(),
                kept + count <= usize::MAX,
                buffer@.len() == old(buffer)@.len(),
                forall|k: int| 0 <= k < i ==> buffer@[k] == old(buffer)@[k + count],
                forall|k: int| i <= k < buffer@.len() ==> buffer@[k] == old(buffer)@[k],
            decreases kept - i,
        {
            let byte = buffer[i + count];
            buffer[i] = byte;
            i = i + 1;
        }
    }
    buffer.truncate(kept);
    assert(buffer@ =~= old(buffer)@.skip(count as int));
}

/// Whether the bytes of `buffer` from `at` on may start a frame.
fn starts_frame_at(buffer: &Vec<u8>, at: usize) -> (r: bool)
    requires
        at <= buffer@.len(),
    ensures
        r == may_start_frame(buffer@.skip(at as int)),
{
    let left: usize = buffer.len() - at;
    (left <= 0 || buffer[at] == 0xFF) && (left <= 1 || buffer[at + 1] == 0xFF) && (left <= 2
        || buffer[at + 2] == 0xFD) && (left <= 3 || buffer[at + 3] == 0x00)
}

/// Drops the bytes at the start of `buffer` that belong to no frame.
pub(crate) fn remove_garbage(buffer: &mut Vec<u8>)
    ensures
        final(buffer)@ == old(buffer)@.skip(garbage(old(buffer)@) as int),
        may_start_frame(final(buffer)@),
{
    let mut count: usize = 0;
    while count < buffer.len() && !starts_frame_at(buffer, count)
        invariant
            count <= buffer@.len(),
            buffer@ == old(buffer)@,
            forall|i: int| 0 <= i < count ==> !may_start_frame(#[trigger] buffer@.skip(i)),
        decreases buffer@.len() - count,
    {
        count = count + 1;
    }
    proof {
        lemma_garbage_skip(buffer@, count as nat);
        if count == buffer@.len() {
            assert(buffer@.skip(count as int) =~= Seq::<u8>::empty());
        }
        lemma_garbage_bound(buffer@);
    }
    consume(buffer, count);
}

/// Looks at the read buffer: drops what belongs to no frame, and takes out
/// the first frame if it is complete.
pub(crate) fn poll_buffer(buffer: &mut Vec<u8>, capacity: usize) -> (found: Option<
    Result<StatusPacket, ReadError>,
>)
    ensures
        (final(buffer)@, found_view(found)) == poll(old(buffer)@, capacity),
{
    remove_garbage(buffer);
    if buffer.len() < HEADER_SIZE {
        return None;
    }
    let low: usize = buffer[5] as usize;
    let high: usize = buffer[6] as usize;
    let declared: usize = low + 256 * high;
    assert(declared == u16_from_le(buffer@.subrange(5, 7)));
    let total: usize = HEADER_SIZE + declared;
    if declared < 3 {
        consume(buffer, 4);
        return Some(Err(ReadError::InvalidLength { declared }));
    }
    if total > capacity {
        consume(buffer, 4);
        return Some(Err(ReadError::BufferTooSmall { required: total, capacity }));
    }
    if buffer.len() < total {
        return None;
    }
    let result = StatusPacket::decode(slice_subrange(buffer.as_slice(), 0, total));
    assert(buffer@.subrange(0, total as int) =~= buffer@.take(total as int));
    consume(buffer, total);
    Some(result)
}

} // verus!
