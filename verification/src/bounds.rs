use core::ops::Range;
use vstd::prelude::*;

verus! {

/// One end of a range of positions.
#[derive(Debug, Clone, Copy, PartialEq, Eq)]
pub enum Bound {
    /// The position itself belongs to the range.
    Included(usize),
    /// The position itself does not belong to the range.
    Excluded(usize),
    /// The range goes as far as the buffer does.
    Unbounded,
}

/// The first position of a range that starts at `bound`.
pub open spec fn start_of(bound: Bound) -> int {
    match bound {
        Bound::Included(start) => start as int,
        Bound::Excluded(start) => start + 1,
        Bound::Unbounded => 0,
    }
}

/// The position after the last of a range that ends at `bound`, in a
/// buffer of `len` elements.
pub open spec fn end_of(bound: Bound, len: usize) -> int {
    match bound {
        Bound::Excluded(end) => end as int,
        Bound::Included(end) => end + 1,
        Bound::Unbounded => len as int,
    }
}

/// Whether the range between the two bounds lies within a buffer of `len`
/// elements.
pub open spec fn fits(bounds: (Bound, Bound), len: usize) -> bool {
    start_of(bounds.0) <= end_of(bounds.1, len) <= len
}

/// Whether the two ranges, of a buffer of `source_len` and of a buffer of
/// `dest_len` elements, have the same length.
pub open spec fn same_length(
    source_range: (Bound, Bound),
    source_len: usize,
    dest_range: (Bound, Bound),
    dest_len: usize,
) -> bool {
    end_of(source_range.1, source_len) - start_of(source_range.0) == end_of(dest_range.1, dest_len)
        - start_of(dest_range.0)
}

/// Whether the two ranges, of a buffer of `source_len` and of a buffer of
/// `dest_len` elements, have the same length.
pub fn lengths_agree(
    source_range: (Bound, Bound),
    source_len: usize,
    dest_range: (Bound, Bound),
    dest_len: usize,
) -> (r: bool)
    ensures
        r == same_length(source_range, source_len, dest_range, dest_len),
{
    let source_start: i128 = match source_range.0 {
        Bound::Included(start) => start as i128,
        Bound::Excluded(start) => start as i128 + 1,
        Bound::Unbounded => 0,
    };
    let source_end: i128 = match source_range.1 {
        Bound::Excluded(end) => end as i128,
        Bound::Included(end) => end as i128 + 1,
        Bound::Unbounded => source_len as i128,
    };
    let dest_start: i128 = match dest_range.0 {
        Bound::Included(start) => start as i128,
        Bound::Excluded(start) => start as i128 + 1,
        Bound::Unbounded => 0,
    };
    let dest_end: i128 = match dest_range.1 {
        Bound::Excluded(end) => end as i128,
        Bound::Included(end) => end as i128 + 1,
        Bound::Unbounded => dest_len as i128,
    };
    source_end - source_start == dest_end - dest_start
}

/// Where a copy between two regions starts in each, counted in bytes, and
/// how many bytes it moves.
#[derive(Debug, Clone, Copy, PartialEq, Eq, Structural)]
pub struct CopyPlan {
    pub from_at: usize,
    pub to_at: usize,
    pub bytes: usize,
}

/// The half-open range that the two bounds describe in a buffer of `len`
/// elements, or `None` where that range does not lie within the buffer.
pub fn bounds_to_range(bounds: (Bound, Bound), len: usize) -> (r: Option<Range<usize>>)
    ensures
        r is Some <==> fits(bounds, len),
        r matches Some(range) ==> range.start == start_of(bounds.0) && range.end == end_of(
            bounds.1,
            len,
        ),
{
    let start = match bounds.0 {
        Bound::Included(start) => start,
        Bound::Excluded(start) => {
            if start >= len {
                return None;
            }
            start + 1
        },
        Bound::Unbounded => 0,
    };
    let end = match bounds.1 {
        Bound::Excluded(end) => end,
        Bound::Included(end) => {
            if end >= len {
                return None;
            }
            end + 1
        },
        Bound::Unbounded => len,
    };
    if start <= end && end <= len {
        Some(start..end)
    } else {
        None
    }
}

/// Where the elements from position `start` on begin, counted in bytes,
/// and how many bytes `len` of them take, where an element takes
/// `elem_size` bytes.  `None` where either number does not fit 64 bits.
pub fn byte_span(start: usize, len: usize, elem_size: usize) -> (r: Option<(u64, u64)>)
    ensures
        r is Some <==> start * elem_size <= u64::MAX && len * elem_size <= u64::MAX,
        r matches Some(span) ==> span.0 == start * elem_size && span.1 == len * elem_size,
{
    let offset = (start as u64).checked_mul(elem_size as u64);
    let bytes = (len as u64).checked_mul(elem_size as u64);
    match (offset, bytes) {
        (Some(offset), Some(bytes)) => Some((offset, bytes)),
        _ => None,
    }
}

} // verus!
