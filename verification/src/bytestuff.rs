//! Byte stuffing: keeping the frame marker out of a frame's body.
//!
//! A frame starts with `FF FF FD 00`.  Where the body holds `FF FF FD`, the
//! sender puts one more `FD` behind it, so that the marker never shows up
//! inside a frame; the receiver takes that byte out again.
//!
//! Both directions read the body from the left and keep count of how much of
//! `FF FF` they have just seen.  The count starts at zero, and again after
//! each `FF FF FD`.

use vstd::prelude::*;

verus! {

/// How many bytes of `FF FF` end at `byte`, when `matched` of them ended
/// just before it.
pub open spec fn advance(matched: int, byte: u8) -> int {
    if byte == 0xFF {
        if matched >= 1 {
            2
        } else {
            1
        }
    } else {
        0
    }
}

/// Whether `byte` completes `FF FF FD`.
pub open spec fn completes(matched: int, byte: u8) -> bool {
    matched == 2 && byte == 0xFD
}

/// `data` with the stuffing bytes put in, for a reader that has just seen
/// `matched` bytes of `FF FF`.
pub open spec fn stuff_from(matched: int, data: Seq<u8>) -> Seq<u8>
    decreases data.len(),
{
    if data.len() == 0 {
        Seq::<u8>::empty()
    } else {
        let rest = stuff_from(advance(matched, data[0]), data.skip(1));
        if completes(matched, data[0]) {
            seq![data[0], 0xFDu8] + rest
        } else {
            seq![data[0]] + rest
        }
    }
}

/// `data` with the stuffing bytes put in.
pub open spec fn stuffed(data: Seq<u8>) -> Seq<u8> {
    stuff_from(0, data)
}

/// `head` in front of what `tail` holds, if it holds anything.
pub open spec fn prepend(head: Seq<u8>, tail: Option<Seq<u8>>) -> Option<Seq<u8>> {
    match tail {
        Some(bytes) => Some(head + bytes),
        None => None,
    }
}

/// `data` with the stuffing bytes taken out, for a reader that has just seen
/// `matched` bytes of `FF FF`.  Nothing, where `FF FF FD` is not followed by
/// its stuffing byte.
pub open spec fn unstuff_from(matched: int, data: Seq<u8>) -> Option<Seq<u8>>
    decreases data.len(),
{
    if data.len() == 0 {
        Some(Seq::<u8>::empty())
    } else if completes(matched, data[0]) {
        if data.len() >= 2 && data[1] == 0xFD {
            prepend(seq![data[0]], unstuff_from(0, data.skip(2)))
        } else {
            None
        }
    } else {
        prepend(seq![data[0]], unstuff_from(advance(matched, data[0]), data.skip(1)))
    }
}

/// `data` with the stuffing bytes taken out.
pub open spec fn unstuffed(data: Seq<u8>) -> Option<Seq<u8>> {
    unstuff_from(0, data)
}

/// Whether `data` holds the frame marker at `at`.
pub open spec fn marker_at(data: Seq<u8>, at: int) -> bool {
    &&& 0 <= at
    &&& at + 4 <= data.len()
    &&& data[at] == 0xFF
    &&& data[at + 1] == 0xFF
    &&& data[at + 2] == 0xFD
    &&& data[at + 3] == 0x00
}

/// The `matched` bytes of `FF FF` that a reader has just seen.
pub open spec fn seen(matched: int) -> Seq<u8> {
    Seq::new(matched as nat, |i: int| 0xFFu8)
}

pub(crate) fn step(matched: u8, byte: u8) -> (next: u8)
    requires
        matched <= 2,
    ensures
        next == advance(matched as int, byte),
        next <= 2,
{
    if byte == 0xFF {
        if matched >= 1 {
            2
        } else {
            1
        }
    } else {
        0
    }
}

/// Appends the stuffed form of `data` to `out`, for a reader that has just
/// seen `start` bytes of `FF FF`.
pub(crate) fn stuff_onto(out: &mut Vec<u8>, start: u8, data: &[u8])
    requires
        start <= 2,
    ensures
        final(out)@ == old(out)@ + stuff_from(start as int, data@),
{
    let mut matched: u8 = start;
    let mut i: usize = 0;
    proof {
        assert(data@.skip(0) =~= data@);
    }
    while i < data.len()
        invariant
            i <= data@.len(),
            matched <= 2,
            out@ + stuff_from(matched as int, data@.skip(i as int)) == old(out)@ + stuff_from(
                start as int,
                data@,
            ),
        decreases data@.len() - i,
    {
        let byte = data[i];
        let ghost before = out@;
        let ghost tail = data@.skip(i as int);
        let ghost rest = stuff_from(advance(matched as int, byte), data@.skip(i + 1));
        proof {
            assert(tail.skip(1) =~= data@.skip(i + 1));
            assert(tail[0] == byte);
        }
        out.push(byte);
        if matched == 2 && byte == 0xFD {
            out.push(0xFD);
            proof {
                assert(out@ + rest =~= before + (seq![byte, 0xFDu8] + rest));
            }
        } else {
            proof {
                assert(out@ + rest =~= before + (seq![byte] + rest));
            }
        }
        matched = step(matched, byte);
        i = i + 1;
    }
    proof {
        assert(data@.skip(i as int) =~= Seq::<u8>::empty());
        assert(out@ + Seq::<u8>::empty() =~= out@);
    }
}

/// Puts the stuffing bytes into `data`.
pub fn stuff(data: &[u8]) -> (out: Vec<u8>)
    ensures
        out@ == stuffed(data@),
{
    let mut out: Vec<u8> = Vec::new();
    stuff_onto(&mut out, 0, data);
    proof {
        assert(Seq::<u8>::empty() + stuffed(data@) =~= stuffed(data@));
    }
    out
}

/// Takes the stuffing bytes out of `data`.
///
/// Returns `None` where `data` holds `FF FF FD` without the stuffing byte
/// behind it: no sender produces such a body.
pub fn unstuff(data: &[u8]) -> (out: Option<Vec<u8>>)
    ensures
        out is Some <==> unstuffed(data@) is Some,
        out matches Some(bytes) ==> unstuffed(data@) == Some(bytes@),
{
    let mut out: Vec<u8> = Vec::new();
    let mut matched: u8 = 0;
    let mut i: usize = 0;
    proof {
        assert(data@.skip(0) =~= data@);
        lemma_prepend_empty(unstuffed(data@));
    }
    while i < data.len()
        invariant
            i <= data@.len(),
            matched <= 2,
            prepend(out@, unstuff_from(matched as int, data@.skip(i as int))) == unstuffed(data@),
        decreases data@.len() - i,
    {
        let byte = data[i];
        let ghost before = out@;
        let ghost tail = data@.skip(i as int);
        proof {
            assert(tail[0] == byte);
            assert(tail.skip(1) =~= data@.skip(i + 1));
        }
        out.push(byte);
        if matched == 2 && byte == 0xFD {
            if i + 1 < data.len() && data[i + 1] == 0xFD {
                proof {
                    assert(tail[1] == 0xFD);
                    assert(tail.skip(2) =~= data@.skip(i + 2));
                    lemma_prepend_twice(before, seq![byte], unstuff_from(0, data@.skip(i + 2)));
                    assert(out@ =~= before + seq![byte]);
                }
                matched = 0;
                i = i + 2;
            } else {
                return None;
            }
        } else {
            proof {
                lemma_prepend_twice(
                    before,
                    seq![byte],
                    unstuff_from(advance(matched as int, byte), data@.skip(i + 1)),
                );
                assert(out@ =~= before + seq![byte]);
            }
            matched = step(matched, byte);
            i = i + 1;
        }
    }
    proof {
        assert(data@.skip(i as int) =~= Seq::<u8>::empty());
        assert(out@ + Seq::<u8>::empty() =~= out@);
    }
    Some(out)
}

proof fn lemma_prepend_empty(tail: Option<Seq<u8>>)
    ensures
        prepend(Seq::<u8>::empty(), tail) == tail,
{
    if let Some(bytes) = tail {
        assert(Seq::<u8>::empty() + bytes =~= bytes);
    }
}

proof fn lemma_prepend_twice(first: Seq<u8>, second: Seq<u8>, tail: Option<Seq<u8>>)
    ensures
        prepend(first, prepend(second, tail)) == prepend(first + second, tail),
{
    if let Some(bytes) = tail {
        assert(first + (second + bytes) =~= (first + second) + bytes);
    }
}

/// What was stuffed comes back unchanged, whatever the reader had seen before.
pub proof fn lemma_unstuff_stuff_from(matched: int, data: Seq<u8>)
    ensures
        unstuff_from(matched, stuff_from(matched, data)) == Some(data),
    decreases data.len(),
{
    if data.len() == 0 {
    } else {
        let next = advance(matched, data[0]);
        let rest = stuff_from(next, data.skip(1));
        lemma_unstuff_stuff_from(next, data.skip(1));
        if completes(matched, data[0]) {
            let whole = seq![data[0], 0xFDu8] + rest;
            assert(whole.skip(2) =~= rest);
            assert(next == 0);
        } else {
            let whole = seq![data[0]] + rest;
            assert(whole.skip(1) =~= rest);
        }
        assert(seq![data[0]] + data.skip(1) =~= data);
    }
}

/// Taking the stuffing out of a stuffed body gives the body back.
pub proof fn lemma_unstuff_stuff(data: Seq<u8>)
    ensures
        unstuffed(stuffed(data)) == Some(data),
{
    lemma_unstuff_stuff_from(0, data);
}

/// A body that can be unstuffed is the stuffed form of what comes out: no two
/// bodies stand for the same bytes.
pub proof fn lemma_stuff_unstuff_from(matched: int, data: Seq<u8>)
    requires
        unstuff_from(matched, data) is Some,
    ensures
        stuff_from(matched, unstuff_from(matched, data)->0) == data,
    decreases data.len(),
{
    if data.len() == 0 {
    } else if completes(matched, data[0]) {
        let inner = unstuff_from(0, data.skip(2));
        lemma_stuff_unstuff_from(0, data.skip(2));
        let plain = seq![data[0]] + inner->0;
        assert(plain.skip(1) =~= inner->0);
        assert(seq![data[0], 0xFDu8] + data.skip(2) =~= data);
    } else {
        let next = advance(matched, data[0]);
        let inner = unstuff_from(next, data.skip(1));
        lemma_stuff_unstuff_from(next, data.skip(1));
        let plain = seq![data[0]] + inner->0;
        assert(plain.skip(1) =~= inner->0);
        assert(seq![data[0]] + data.skip(1) =~= data);
    }
}

/// What comes out of a body starts with the byte that the body starts with.
pub proof fn lemma_unstuff_first(matched: int, data: Seq<u8>)
    requires
        data.len() > 0,
        unstuff_from(matched, data) is Some,
    ensures
        unstuff_from(matched, data)->0.len() > 0,
        unstuff_from(matched, data)->0[0] == data[0],
{
}

/// A body that starts with `first` is stuffed by keeping `first` and
/// stuffing the rest for a reader that has seen it.
pub proof fn lemma_stuffed_first(first: u8, rest: Seq<u8>)
    ensures
        stuffed(seq![first] + rest) == seq![first] + stuff_from(advance(0, first), rest),
{
    let data = seq![first] + rest;
    assert(data.skip(1) =~= rest);
}

/// Stuffing takes no byte away and adds at most one for every three: the
/// pattern that calls for a stuffing byte is three bytes long, of which the
/// reader may have seen up to two before.
pub proof fn lemma_stuff_len(matched: int, data: Seq<u8>)
    requires
        0 <= matched <= 2,
    ensures
        data.len() <= stuff_from(matched, data).len() <= data.len() + (data.len() + matched) / 3,
    decreases data.len(),
{
    if data.len() > 0 {
        lemma_stuff_len(advance(matched, data[0]), data.skip(1));
    }
}

/// Bytes that hold no marker hold none behind a prefix either, from the
/// end of the prefix on.
proof fn lemma_marker_behind(prefix: Seq<u8>, inner: Seq<u8>, at: int)
    requires
        at >= prefix.len(),
        !marker_at(inner, at - prefix.len()),
    ensures
        !marker_at(prefix + inner, at),
{
    let whole = prefix + inner;
    let within = at - prefix.len();
    if at + 4 <= whole.len() {
        assert(whole[at] == inner[within]);
        assert(whole[at + 1] == inner[within + 1]);
        assert(whole[at + 2] == inner[within + 2]);
        assert(whole[at + 3] == inner[within + 3]);
    }
}

/// What the reader has just seen and the stuffed bytes behind it hold the
/// marker nowhere.
pub proof fn lemma_no_marker_from(matched: int, data: Seq<u8>, at: int)
    requires
        0 <= matched <= 2,
    ensures
        !marker_at(seen(matched) + stuff_from(matched, data), at),
    decreases data.len(),
{
    let whole = seen(matched) + stuff_from(matched, data);
    if data.len() > 0 && 0 <= at {
        let byte = data[0];
        let next = advance(matched, byte);
        let rest = stuff_from(next, data.skip(1));
        let inner = seen(next) + rest;
        if completes(matched, byte) {
            let prefix = seq![0xFFu8, 0xFFu8, 0xFDu8, 0xFDu8];
            assert(whole =~= prefix + inner);
            if at >= 4 {
                lemma_no_marker_from(next, data.skip(1), at - 4);
                lemma_marker_behind(prefix, inner, at);
            } else {
                assert(whole[2] == 0xFD);
                assert(whole[3] == 0xFD);
            }
        } else if byte == 0xFF && matched < 2 {
            assert(whole =~= inner);
            lemma_no_marker_from(next, data.skip(1), at);
        } else if byte == 0xFF {
            let prefix = seq![0xFFu8];
            assert(whole =~= prefix + inner);
            if at >= 1 {
                lemma_no_marker_from(next, data.skip(1), at - 1);
                lemma_marker_behind(prefix, inner, at);
            } else {
                assert(whole[2] == 0xFF);
            }
        } else {
            let prefix = seen(matched) + seq![byte];
            assert(whole =~= prefix + inner);
            if at >= matched + 1 {
                lemma_no_marker_from(next, data.skip(1), at - (matched + 1));
                lemma_marker_behind(prefix, inner, at);
            } else {
                assert(whole[matched] == byte);
            }
        }
    }
}

/// A stuffed body holds the marker nowhere: whatever the parameters are, a
/// frame has one marker, at its start.
pub proof fn lemma_no_marker(data: Seq<u8>, at: int)
    ensures
        !marker_at(stuffed(data), at),
{
    lemma_no_marker_from(0, data, at);
    assert(seen(0) + stuffed(data) =~= stuffed(data));
}

} // verus!
