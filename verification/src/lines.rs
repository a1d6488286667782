//! Newline counting, shared by the cursor tracker and the scrollback store.

use vstd::prelude::*;

verus! {

/// The newline byte.
pub const NEWLINE: u8 = 0x0A;

/// How many bytes of `bytes` are the newline byte.
pub open spec fn count_newlines(bytes: Seq<u8>) -> nat
    decreases bytes.len(),
{
    if bytes.len() == 0 {
        0
    } else {
        count_newlines(bytes.drop_last()) + if bytes.last() == NEWLINE {
            1nat
        } else {
            0nat
        }
    }
}

/// How many bytes follow the last newline of `bytes`; all of them, if it
/// holds none.
pub open spec fn trailing_bytes(bytes: Seq<u8>) -> nat
    decreases bytes.len(),
{
    if bytes.len() == 0 || bytes.last() == NEWLINE {
        0
    } else {
        trailing_bytes(bytes.drop_last()) + 1
    }
}

/// `n`, or the largest `usize` if `n` is beyond it.
pub open spec fn saturate(n: int) -> usize {
    if n > usize::MAX {
        usize::MAX
    } else if n < 0 {
        0
    } else {
        n as usize
    }
}

/// The newlines of two runs put together are those of each.
pub proof fn lemma_count_newlines_concat(a: Seq<u8>, b: Seq<u8>)
    ensures
        count_newlines(a + b) == count_newlines(a) + count_newlines(b),
    decreases b.len(),
{
    if b.len() > 0 {
        lemma_count_newlines_concat(a, b.drop_last());
        assert((a + b).drop_last() =~= a + b.drop_last());
    }
}

/// A run without a newline trails in full.
pub proof fn lemma_trailing_without_newline(bytes: Seq<u8>)
    requires
        count_newlines(bytes) == 0,
    ensures
        trailing_bytes(bytes) == bytes.len(),
    decreases bytes.len(),
{
    if bytes.len() > 0 {
        lemma_trailing_without_newline(bytes.drop_last());
    }
}

} // verus!
