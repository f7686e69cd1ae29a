//! Small byte-buffer helpers shared by the codec and the tag I/O planners.

use vstd::prelude::*;

verus! {

/// Copy `buf[start..end]` into a fresh vector.
pub fn copy_range(buf: &[u8], start: usize, end: usize) -> (out: Vec<u8>)
    requires
        start <= end <= buf@.len(),
    ensures
        out@ == buf@.subrange(start as int, end as int),
{
    let mut out: Vec<u8> = Vec::new();
    let mut i = start;
    while i < end
        invariant
            start <= i <= end <= buf@.len(),
            out@ == buf@.subrange(start as int, i as int),
        decreases end - i,
    {
        out.push(buf[i]);
        proof {
            assert(out@ =~= buf@.subrange(start as int, i + 1));
        }
        i = i + 1;
    }
    out
}

/// The index of the first occurrence of `b` in `buf` at or after `i`.
pub open spec fn spec_find_byte(buf: Seq<u8>, b: u8, i: int) -> Option<int>
    decreases buf.len() - i,
{
    if i < 0 || i >= buf.len() {
        None
    } else if buf[i] == b {
        Some(i)
    } else {
        spec_find_byte(buf, b, i + 1)
    }
}

/// Find the first occurrence of `b` in `buf`.
pub fn find_byte(buf: &[u8], b: u8) -> (r: Option<usize>)
    ensures
        r matches Some(i) ==> spec_find_byte(buf@, b, 0) == Some(i as int) && i < buf@.len()
            && buf@[i as int] == b,
        r is None ==> spec_find_byte(buf@, b, 0) is None,
{
    let n = buf.len();
    let mut i: usize = 0;
    while i < n
        invariant
            i <= n == buf@.len(),
            spec_find_byte(buf@, b, 0) == spec_find_byte(buf@, b, i as int),
        decreases n - i,
    {
        if buf[i] == b {
            return Some(i);
        }
        i = i + 1;
    }
    None
}

} // verus!
