//! Globally unique, sortable identifiers: twelve bytes that hold a timestamp,
//! a host fingerprint, a process fingerprint and a counter, with an
//! order-preserving text form of twenty characters.
use vstd::prelude::*;

pub mod clock;
pub mod counter;
pub mod generator;
pub mod id;
pub mod machine_id;
pub mod order;
pub mod pid;
pub mod roundtrip;
pub mod state;

pub use generator::Generator;
pub use id::{Id, ParseIdError};
pub use state::State;

verus! {

/// Mints a new identifier from a generator, for the present second. Where
/// the clock stands before the Unix epoch there is no identifier.
#[must_use]
pub fn new(generator: &Generator) -> (r: Option<Id>)
    ensures
        r is Some ==> exists|unix_ts: u32| #[trigger] generator.mints(unix_ts, r->0),
{
    generator.new_id()
}

} // verus!
