//! The state of a generator at one moment, and how minting an identifier
//! changes it.
use vstd::prelude::*;

use crate::id::{counter_of, pid_of, seconds_of, Id};

verus! {

/// What a generator holds at one moment: the counter, which goes up by one
/// with each identifier, and the fingerprints of host and process, which
/// stay.
#[derive(Debug, Clone, Copy, PartialEq, Eq)]
pub struct State {
    pub counter: u32,
    pub machine_id: [u8; 3],
    pub pid: [u8; 2],
}

/// The twelve bytes of an identifier with these fields: the timestamp in
/// four bytes, the host fingerprint in three, the process fingerprint in
/// two, and the low three bytes of the counter, each big-endian.
pub open spec fn layout(unix_ts: u32, machine: Seq<u8>, pid: Seq<u8>, counter: u32) -> Seq<u8> {
    seq![
        (unix_ts / 0x100_0000) as u8,
        (unix_ts / 0x1_0000 % 0x100) as u8,
        (unix_ts / 0x100 % 0x100) as u8,
        (unix_ts % 0x100) as u8,
        machine[0],
        machine[1],
        machine[2],
        pid[0],
        pid[1],
        (counter / 0x1_0000 % 0x100) as u8,
        (counter / 0x100 % 0x100) as u8,
        (counter % 0x100) as u8,
    ]
}

impl State {
    /// The counter after `n` more identifiers: it wraps at 32 bits.
    pub open spec fn counter_after(self, n: nat) -> u32 {
        ((self.counter + n) % 0x1_0000_0000) as u32
    }

    /// The state after `n` more identifiers.
    pub open spec fn after(self, n: nat) -> State {
        State { counter: self.counter_after(n), machine_id: self.machine_id, pid: self.pid }
    }

    /// The bytes of the `n`-th identifier from now (the next one is the
    /// first), if it is minted at the second `unix_ts`.
    pub open spec fn minted(self, n: nat, unix_ts: u32) -> Seq<u8> {
        layout(unix_ts, self.machine_id@, self.pid@, self.counter_after(n))
    }

    /// Mints the next identifier for the second `unix_ts`: the counter goes
    /// up by one, and the identifier holds its new value.
    pub fn mint(&mut self, unix_ts: u32) -> (id: Id)
        ensures
            *final(self) == old(self).after(1),
            id@ == old(self).minted(1, unix_ts),
            id.spec_seconds() == unix_ts,
            id@.subrange(4, 7) == old(self).machine_id@,
            id@.subrange(7, 9) == old(self).pid@,
            id.spec_counter() == (old(self).counter + 1) % 0x100_0000,
    {
        let counter = self.counter.wrapping_add(1);
        self.counter = counter;
        let raw = [
            (unix_ts / 0x100_0000) as u8,
            (unix_ts / 0x1_0000 % 0x100) as u8,
            (unix_ts / 0x100 % 0x100) as u8,
            (unix_ts % 0x100) as u8,
            self.machine_id[0],
            self.machine_id[1],
            self.machine_id[2],
            self.pid[0],
            self.pid[1],
            (counter / 0x1_0000 % 0x100) as u8,
            (counter / 0x100 % 0x100) as u8,
            (counter % 0x100) as u8,
        ];
        let id = Id(raw);
        proof {
            lemma_high_bytes(unix_ts);
            lemma_low_bytes(counter);
            lemma_mod_add(old(self).counter + 1, 0);
            assert(counter == old(self).counter_after(1));
            assert(id@ =~= old(self).minted(1, unix_ts));
            assert(id@.subrange(4, 7) =~= old(self).machine_id@);
            assert(id@.subrange(7, 9) =~= old(self).pid@);
        }
        id
    }
}

proof fn lemma_mod_add(x: int, n: int)
    requires
        0 <= x,
        0 <= n,
    ensures
        ((x % 0x1_0000_0000) + n) % 0x1_0000_0000 == (x + n) % 0x1_0000_0000,
        (x % 0x1_0000_0000) % 0x100_0000 == x % 0x100_0000,
        ((x % 0x100_0000) + n) % 0x100_0000 == (x + n) % 0x100_0000,
        (x + 0x100_0000) % 0x100_0000 == x % 0x100_0000,
{
}

proof fn lemma_mod_apart(x: int, y: int)
    requires
        0 <= x,
        x < y < x + 0x100_0000,
    ensures
        x % 0x100_0000 != y % 0x100_0000,
{
}

proof fn lemma_low_bytes(c: u32)
    by (bit_vector)
    ensures
        (c / 0x1_0000 % 0x100) * 0x1_0000 + (c / 0x100 % 0x100) * 0x100 + c % 0x100 == c
            % 0x100_0000,
        c / 0x1_0000 % 0x100 < 0x100,
        c / 0x100 % 0x100 < 0x100,
        c % 0x100 < 0x100,
{
}

proof fn lemma_high_bytes(x: u32)
    by (bit_vector)
    ensures
        (x / 0x100_0000) * 0x100_0000 + (x / 0x1_0000 % 0x100) * 0x1_0000 + (x / 0x100 % 0x100)
            * 0x100 + x % 0x100 == x,
        x / 0x100_0000 < 0x100,
        x / 0x1_0000 % 0x100 < 0x100,
        x / 0x100 % 0x100 < 0x100,
        x % 0x100 < 0x100,
{
}

proof fn lemma_counter_of(unix_ts: u32, machine: Seq<u8>, pid: Seq<u8>, counter: u32)
    ensures
        counter_of(layout(unix_ts, machine, pid, counter)) == counter % 0x100_0000,
{
    lemma_low_bytes(counter);
}

/// The fields of an identifier are those it was laid out from: the
/// timestamp, the two fingerprints, and the low 24 bits of the counter.
pub proof fn layout_fields(unix_ts: u32, machine: Seq<u8>, pid: Seq<u8>, counter: u32)
    requires
        machine.len() == 3,
        pid.len() == 2,
    ensures
        layout(unix_ts, machine, pid, counter).len() == 12,
        seconds_of(layout(unix_ts, machine, pid, counter)) == unix_ts,
        layout(unix_ts, machine, pid, counter).subrange(4, 7) == machine,
        layout(unix_ts, machine, pid, counter).subrange(7, 9) == pid,
        pid_of(layout(unix_ts, machine, pid, counter)) == pid[0] * 0x100 + pid[1],
        counter_of(layout(unix_ts, machine, pid, counter)) == counter % 0x100_0000,
{
    let raw = layout(unix_ts, machine, pid, counter);
    lemma_high_bytes(unix_ts);
    lemma_low_bytes(counter);
    assert(raw.subrange(4, 7) =~= machine);
    assert(raw.subrange(7, 9) =~= pid);
}

/// Two identifiers that are minted from one state on are different, whatever their
/// timestamps, unless 2^24 or more identifiers lie between them.
pub proof fn minted_differ(s: State, i: nat, j: nat, t: u32, u: u32)
    requires
        i < j < i + 0x100_0000,
    ensures
        s.minted(i, t) != s.minted(j, u),
{
    lemma_mod_add(s.counter + i, 0);
    lemma_mod_add(s.counter + j, 0);
    lemma_mod_apart(s.counter + i, s.counter + j);
    lemma_counter_of(t, s.machine_id@, s.pid@, s.counter_after(i));
    lemma_counter_of(u, s.machine_id@, s.pid@, s.counter_after(j));
}

/// The counter of each identifier is one more than that of the one before,
/// modulo 2^24.
pub proof fn counters_ascend(s: State, n: nat, t: u32, u: u32)
    ensures
        counter_of(s.minted(n + 1, u)) == (counter_of(s.minted(n, t)) + 1) % 0x100_0000,
{
    lemma_mod_add(s.counter + n, 1);
    lemma_mod_add(s.counter + n + 1, 0);
    lemma_counter_of(t, s.machine_id@, s.pid@, s.counter_after(n));
    lemma_counter_of(u, s.machine_id@, s.pid@, s.counter_after(n + 1));
}

proof fn lemma_same_low_bytes(c: u32, d: u32)
    by (bit_vector)
    requires
        c % 0x100_0000 == d % 0x100_0000,
    ensures
        c / 0x1_0000 % 0x100 == d / 0x1_0000 % 0x100,
        c / 0x100 % 0x100 == d / 0x100 % 0x100,
        c % 0x100 == d % 0x100,
{
}

/// After 2^24 more identifiers the counter's three bytes come again: with
/// the same timestamp, so does the whole identifier.
pub proof fn counter_wraps(s: State, n: nat, t: u32)
    ensures
        s.minted(n + 0x100_0000, t) == s.minted(n, t),
{
    let c = s.counter_after(n);
    let d = s.counter_after(n + 0x100_0000);
    lemma_mod_add(s.counter + n, 0);
    lemma_mod_add(s.counter + n + 0x100_0000, 0);
    lemma_same_low_bytes(c, d);
    assert(s.minted(n + 0x100_0000, t) =~= s.minted(n, t));
}

/// Minting one identifier and then `n` more leaves the state where
/// minting `n + 1` leaves it.
pub proof fn after_adds(s: State, n: nat)
    ensures
        s.after(1).after(n) == s.after(n + 1),
        forall|t: u32| s.after(1).minted(n, t) == s.minted(n + 1, t),
{
    lemma_mod_add(s.counter + 1, n as int);
}

} // verus!
