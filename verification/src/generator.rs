//! The generator: a shared counter and the two fingerprints, from which it
//! mints identifiers.
use std::sync::atomic::AtomicU32;
use std::time::SystemTime;
use vstd::prelude::*;

use crate::clock::{epoch_seconds, now, seconds_since_epoch};
use crate::counter::advance;
use crate::id::Id;
use crate::machine_id;
use crate::pid;
use crate::state::{layout, State};

verus! {

/// What mints identifiers, for any number of threads at once: the counter,
/// which each identifier advances by one in an atomic step, and the
/// fingerprints of host and process, which stay.
#[derive(Debug)]
pub struct Generator {
    pub counter: AtomicU32,
    pub machine_id: [u8; 3],
    pub pid: [u8; 2],
}

/// The low 32 bits of a number of seconds.
pub open spec fn low32(secs: u64) -> u32 {
    (secs % 0x1_0000_0000) as u32
}

/// The two bytes of a process fingerprint, the high one first.
pub open spec fn pid_bytes(p: u16) -> Seq<u8> {
    seq![(p / 0x100) as u8, (p % 0x100) as u8]
}

/// What a control group file holds, as a value of specifications.
pub open spec fn cpuset_view(cpuset: Option<Vec<u8>>) -> Option<Seq<u8>> {
    match cpuset {
        Some(name) => Some(name@),
        None => None,
    }
}

impl Generator {
    /// Whether `id` is an identifier of this generator for the second
    /// `unix_ts`: it holds that timestamp and the generator's fingerprints,
    /// with some value of the counter.
    pub open spec fn mints(&self, unix_ts: u32, id: Id) -> bool {
        exists|counter: u32|
            id@ == #[trigger] layout(unix_ts, self.machine_id@, self.pid@, counter)
    }

    /// Mints the next identifier for the present second. Where the clock
    /// stands before the Unix epoch there is no identifier.
    pub fn new_id(&self) -> (r: Option<Id>)
        ensures
            r is Some ==> exists|unix_ts: u32| #[trigger] self.mints(unix_ts, r->0),
    {
        let time = now();
        self.with_time(&time)
    }

    /// Mints the next identifier for a point in time, by the low 32 bits of
    /// its seconds since the Unix epoch. For a time before the epoch there is
    /// no identifier.
    pub fn with_time(&self, time: &SystemTime) -> (r: Option<Id>)
        ensures
            match epoch_seconds(*time) {
                Some(secs) => r is Some && self.mints(low32(secs), r->0),
                None => r is None,
            },
    {
        match seconds_since_epoch(time) {
            Some(secs) => Some(self.generate((secs % 0x1_0000_0000) as u32)),
            None => None,
        }
    }

    /// Mints the next identifier for the second `unix_ts`: the shared
    /// counter goes up by one, and the identifier holds the value that this
    /// step gave it. Which value that is depends on the other threads.
    pub fn generate(&self, unix_ts: u32) -> (id: Id)
        ensures
            self.mints(unix_ts, id),
    {
        let before = advance(&self.counter);
        let mut state = State { counter: before, machine_id: self.machine_id, pid: self.pid };
        state.mint(unix_ts)
    }
}

/// A random start for the counter: a number of 24 bits.
pub fn init_random() -> (c: u32)
    ensures
        c < 0x100_0000,
{
    let bs = machine_id::random_bytes();
    seed_from(&bs)
}

/// A generator for this process on this machine: its counter starts at a
/// random number of 24 bits, and its fingerprints are those of the machine's
/// identifier and of the process.
pub fn get(machine_id: String, process_id: u32, cpuset: Option<Vec<u8>>) -> (g: Generator)
    ensures
        g.pid@ == pid_bytes(pid::fingerprint(process_id, cpuset_view(cpuset))),
        machine_id@.len() > 0 ==> g.machine_id@ == machine_id::md5_of(
            vstd::utf8::encode_utf8(machine_id@),
        ).subrange(0, 3),
{
    let machine = machine_id::get(machine_id);
    let p = pid::get(process_id, cpuset);
    let pid = [(p / 0x100) as u8, (p % 0x100) as u8];
    assert(pid@ =~= pid_bytes(p));
    Generator { counter: AtomicU32::new(init_random()), machine_id: machine, pid }
}

/// The number that three bytes stand for, the first byte highest.
pub open spec fn seed_of(bytes: Seq<u8>) -> nat {
    (bytes[0] * 0x1_0000 + bytes[1] * 0x100 + bytes[2]) as nat
}

/// The start that three bytes give the counter: the bytes as one big-endian
/// number, with the high byte of the counter zero.
pub fn seed_from(bytes: &[u8; 3]) -> (c: u32)
    ensures
        c == seed_of(bytes@),
        c < 0x100_0000,
{
    (bytes[0] as u32) * 0x1_0000 + (bytes[1] as u32) * 0x100 + (bytes[2] as u32)
}

} // verus!
