//! The counter that the threads of a process share.
use std::sync::atomic::{AtomicU32, Ordering};
use vstd::prelude::*;

verus! {

/// Advances the counter by one, wrapping at 32 bits, in one atomic and
/// sequentially consistent step, and returns the value it held before: no
/// two callers get the same value until the counter has gone round.
pub(crate) fn advance(counter: &AtomicU32) -> u32 {
    counter.fetch_add(1, Ordering::SeqCst)
}

} // verus!
