//! Small helpers for contracts.

use vstd::prelude::*;

verus! {

/// The counter value that follows `n`: one more, wrapping at 2^64.
pub open spec fn wrapping_next(n: u64) -> u64 {
    if n == u64::MAX {
        0
    } else {
        (n + 1) as u64
    }
}

/// The index `i` as a mathematical integer.
pub open spec fn position(i: usize) -> int {
    i as int
}

/// The first `n` items of `s`.
pub open spec fn first_n<T>(s: Seq<T>, n: usize) -> Seq<T> {
    s.take(n as int)
}

} // verus!
