//! Helpers for completion at a cursor.

pub mod by_type;
pub mod item;
pub mod literal;
pub mod order;
pub mod params;
pub mod paths;

use vstd::prelude::*;
use vstd::string::*;
use vstd::utf8::*;

verus! {

/// The first position at or behind `start` that is a character boundary of
/// `bytes`; `start` itself if it is at or behind the end.
pub open spec fn boundary_from(bytes: Seq<u8>, start: int) -> int
    decreases bytes.len() - start,
{
    if start >= bytes.len() || is_char_boundary(bytes, start) {
        start
    } else {
        boundary_from(bytes, start + 1)
    }
}

/// The last position at or before `end` that is a character boundary of
/// `bytes`.
pub open spec fn boundary_upto(bytes: Seq<u8>, end: int) -> int
    decreases end,
{
    if end <= 0 || is_char_boundary(bytes, end) {
        end
    } else {
        boundary_upto(bytes, end - 1)
    }
}

/// The bytes of the slice of a string between two byte positions that need
/// not be character boundaries: the start moves forward and the end moves
/// back to the next boundary, and nothing is left where they cross.
pub open spec fn safe_slice_bytes(bytes: Seq<u8>, start: int, end: int) -> Seq<u8> {
    let from = boundary_from(bytes, start);
    let to = boundary_upto(bytes, end);
    if to < from {
        Seq::empty()
    } else {
        bytes.subrange(from, to)
    }
}

/// The slice of `s` from the byte position `start` to the byte position
/// `end`, each moved to a character boundary. Never panics.
#[verifier::loop_isolation(false)]
pub fn safe_str_slice(s: &str, start: usize, end: usize) -> (r: &str)
    ensures
        r.spec_bytes() == safe_slice_bytes(s.spec_bytes(), start as int, end as int),
{
    broadcast use encode_utf8_valid_utf8;
    broadcast use is_char_boundary_start_end_of_seq;

    let ghost bytes = s.spec_bytes();
    let raw = s.as_bytes();
    assert(bytes.len() == raw.len());
    let mut start = start;
    let mut end = end;
    let ghost start0 = start;
    let ghost end0 = end;
    while start < s.len() && !s.is_char_boundary(start)
        invariant
            bytes == s.spec_bytes(),
            boundary_from(bytes, start0 as int) == boundary_from(bytes, start as int),
        decreases s.len() - start,
    {
        start += 1;
    }
    while end > 0 && !s.is_char_boundary(end)
        invariant
            bytes == s.spec_bytes(),
            boundary_upto(bytes, end0 as int) == boundary_upto(bytes, end as int),
        decreases end,
    {
        end -= 1;
    }
    if end < start {
        assert(is_char_boundary(bytes, 0));
        let (nothing, _) = s.split_at(0);
        assert(nothing.spec_bytes() =~= Seq::<u8>::empty());
        return nothing;
    }
    assert(is_char_boundary(bytes, end as int));
    assert(end <= bytes.len());
    let (head, _) = s.split_at(end);
    proof {
        let part = head.spec_bytes();
        assert(valid_utf8(part));
        assert(part.len() == end);
        if start < end {
            assert(is_char_boundary(bytes, start as int));
            is_char_boundary_iff_not_is_continuation_byte(bytes, start as int);
            assert(part[start as int] == bytes[start as int]);
            is_char_boundary_iff_not_is_continuation_byte(part, start as int);
        } else {
            is_char_boundary_start_end_of_seq(part);
        }
        assert(is_char_boundary(part, start as int));
    }
    let (_, tail) = head.split_at(start);
    assert(tail.spec_bytes() =~= bytes.subrange(start as int, end as int));
    tail
}

} // verus!
