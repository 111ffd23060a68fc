use std::time::{Duration, UNIX_EPOCH};

use std::sync::atomic::{AtomicU32, Ordering};

use xid::generator::{get, init_random, seed_from};
use xid::{machine_id, pid, Generator, Id, State};

fn shared(counter: u32, machine_id: [u8; 3], pid: [u8; 2]) -> Generator {
    Generator { counter: AtomicU32::new(counter), machine_id, pid }
}

#[test]
fn test_new() {
    let generator = get("0123456789abcdef0123456789abcdef".to_string(), 4242, None);
    let mut ids = Vec::new();
    for _ in 0..10 {
        ids.push(xid::new(&generator).unwrap());
    }

    for i in 1..10 {
        // Test for uniqueness among all other 9 generated ids
        for j in 0..10 {
            if i != j {
                assert_ne!(ids[i], ids[j]);
            }
        }

        let id = &ids[i];
        let prev_id = &ids[i - 1];
        // Check that timestamp was incremented and is within 5 seconds of the previous one
        // Panics if it went backwards.
        let secs = id.time().duration_since(prev_id.time()).unwrap().as_secs();
        assert!(secs <= 5);
        // Check that machine ids are the same
        assert_eq!(id.machine(), prev_id.machine());
        // Check that pids are the same
        assert_eq!(id.pid(), prev_id.pid());
        // Test for proper increment
        assert_eq!(id.counter() - prev_id.counter(), 1);
    }
}

#[test]
fn mint_packs_the_fields() {
    let mut state = State { counter: 4_271_560, machine_id: [0x60, 0xf4, 0x86], pid: [0xe4, 0x28] };
    let id = state.mint(1_300_816_219);
    assert_eq!(
        id,
        Id([0x4d, 0x88, 0xe1, 0x5b, 0x60, 0xf4, 0x86, 0xe4, 0x28, 0x41, 0x2d, 0xc9])
    );
    assert_eq!(state.counter, 4_271_561);
    assert_eq!(state.machine_id, [0x60, 0xf4, 0x86]);
    assert_eq!(state.pid, [0xe4, 0x28]);
    assert_eq!(id.to_string(), "9m4e2mr0ui3e8a215n4g");
}

#[test]
fn the_counter_goes_up_by_one() {
    let mut state = State { counter: 7, machine_id: [1, 2, 3], pid: [4, 5] };
    let a = state.mint(100);
    let b = state.mint(100);
    let c = state.mint(101);
    assert_eq!(a.counter(), 8);
    assert_eq!(b.counter(), 9);
    assert_eq!(c.counter(), 10);
    assert!(a < b && b < c);
    assert!(a.to_string() < b.to_string() && b.to_string() < c.to_string());
}

#[test]
fn the_high_byte_of_the_counter_is_left_out() {
    let mut state = State { counter: 0x00ff_ffff, machine_id: [1, 2, 3], pid: [4, 5] };
    let id = state.mint(1);
    assert_eq!(state.counter, 0x0100_0000);
    assert_eq!(id.counter(), 0);
    assert_eq!(id, Id([0, 0, 0, 1, 1, 2, 3, 4, 5, 0, 0, 0]));
}

#[test]
fn the_counter_wraps_at_32_bits() {
    let mut state = State { counter: u32::MAX, machine_id: [1, 2, 3], pid: [4, 5] };
    let id = state.mint(u32::MAX);
    assert_eq!(state.counter, 0);
    assert_eq!(id, Id([0xff, 0xff, 0xff, 0xff, 1, 2, 3, 4, 5, 0, 0, 0]));
}

#[test]
fn counter_bytes_come_again_after_two_to_the_24() {
    let mut first = State { counter: 5, machine_id: [1, 2, 3], pid: [4, 5] };
    let mut later = State { counter: 5 + 0x0100_0000, machine_id: [1, 2, 3], pid: [4, 5] };
    assert_eq!(first.mint(9), later.mint(9));
}

#[test]
fn many_identifiers_in_a_row_differ() {
    let mut state = State { counter: 0x00ff_fff0, machine_id: [1, 2, 3], pid: [4, 5] };
    let mut ids = Vec::new();
    for _ in 0..64 {
        ids.push(state.mint(77));
    }
    for i in 0..64 {
        for j in 0..i {
            assert_ne!(ids[i], ids[j]);
        }
    }
    for i in 1..64 {
        assert_eq!(ids[i].counter(), (ids[i - 1].counter() + 1) % 0x0100_0000);
    }
}

#[test]
fn with_time_takes_the_seconds_since_the_epoch() {
    let generator = shared(4_271_560, [0x60, 0xf4, 0x86], [0xe4, 0x28]);
    let time = UNIX_EPOCH + Duration::new(1_300_816_219, 999_999_999);
    let id = generator.with_time(&time).unwrap();
    assert_eq!(
        id,
        Id([0x4d, 0x88, 0xe1, 0x5b, 0x60, 0xf4, 0x86, 0xe4, 0x28, 0x41, 0x2d, 0xc9])
    );
    assert_eq!(id.time(), UNIX_EPOCH + Duration::from_secs(1_300_816_219));
}

#[test]
fn with_time_keeps_the_low_32_bits_of_the_seconds() {
    let generator = shared(0, [0, 0, 0], [0, 0]);
    let time = UNIX_EPOCH + Duration::from_secs(0x1_0000_0002);
    let id = generator.with_time(&time).unwrap();
    assert_eq!(id.seconds(), 2);
}

#[test]
fn a_time_before_the_epoch_gives_nothing() {
    let generator = shared(7, [1, 2, 3], [4, 5]);
    let time = UNIX_EPOCH - Duration::from_secs(1);
    assert_eq!(generator.with_time(&time), None);
    assert_eq!(generator.counter.load(Ordering::SeqCst), 7);
    assert_eq!(generator.machine_id, [1, 2, 3]);
    assert_eq!(generator.pid, [4, 5]);
}

#[test]
fn new_id_uses_the_present_second() {
    let generator = shared(7, [1, 2, 3], [4, 5]);
    let before = UNIX_EPOCH.elapsed().unwrap().as_secs();
    let id = generator.new_id().unwrap();
    let after = UNIX_EPOCH.elapsed().unwrap().as_secs();
    assert!(before <= u64::from(id.seconds()) && u64::from(id.seconds()) <= after);
    assert_eq!(id.counter(), 8);
    assert_eq!(id.machine(), [1, 2, 3]);
    assert_eq!(id.pid(), 0x0405);
}

#[test]
fn the_counter_starts_below_two_to_the_24() {
    for _ in 0..32 {
        assert!(init_random() < 0x0100_0000);
    }
}

#[test]
fn get_takes_the_fingerprints() {
    let g = get("abc".to_string(), 0x0001_e428, None);
    assert_eq!(g.machine_id, [0x90, 0x01, 0x50]);
    assert_eq!(g.pid, [0xe4, 0x28]);
    assert!(g.counter.load(Ordering::SeqCst) < 0x0100_0000);
}

#[test]
fn process_fingerprint_without_a_control_group() {
    assert_eq!(pid::get(0x0001_e428, None), 0xe428);
    assert_eq!(pid::get(7, Some(Vec::new())), 7);
    assert_eq!(pid::get(7, Some(vec![b'/'])), 7);
}

#[test]
fn process_fingerprint_with_a_control_group() {
    // The checksum of "123456789" is 0xcbf43926.
    assert_eq!(pid::get(0, Some(b"123456789".to_vec())), 0x3926);
    assert_eq!(pid::get(1, Some(b"123456789".to_vec())), 0x3927);
    assert_ne!(pid::get(0, Some(b"/docker/a".to_vec())), pid::get(0, Some(b"/docker/b".to_vec())));
}

#[test]
fn mix_is_exclusive_or_cut_to_16_bits() {
    assert_eq!(pid::mix(0x1234_5678, 0), 0x5678);
    assert_eq!(pid::mix(0x0000_ffff, 0x0000_00ff), 0xff00);
    assert_eq!(pid::mix(0xffff_0000, 0x0000_0001), 1);
}

#[test]
fn host_fingerprint_is_the_start_of_the_digest() {
    // The MD5 digest of "abc" starts 90 01 50 98; that of "hello" 5d 41 40 2a.
    assert_eq!(machine_id::get("abc".to_string()), [0x90, 0x01, 0x50]);
    assert_eq!(machine_id::from_name("hello"), [0x5d, 0x41, 0x40]);
}

#[test]
fn prefix_takes_three_bytes() {
    let digest = [1, 2, 3, 4, 5, 6, 7, 8, 9, 10, 11, 12, 13, 14, 15, 16];
    assert_eq!(machine_id::prefix(&digest), [1, 2, 3]);
}

#[test]
fn host_fingerprint_without_an_identifier() {
    let a = machine_id::get(String::new());
    assert_eq!(a.len(), 3);
}

#[test]
fn the_shared_counter_goes_up_by_one() {
    let generator = shared(7, [1, 2, 3], [4, 5]);
    let a = generator.generate(100);
    let b = generator.generate(100);
    let c = generator.generate(101);
    assert_eq!(a, Id([0, 0, 0, 100, 1, 2, 3, 4, 5, 0, 0, 8]));
    assert_eq!(b, Id([0, 0, 0, 100, 1, 2, 3, 4, 5, 0, 0, 9]));
    assert_eq!(c, Id([0, 0, 0, 101, 1, 2, 3, 4, 5, 0, 0, 10]));
    assert_eq!(generator.counter.load(Ordering::SeqCst), 10);
}

#[test]
fn the_shared_counter_wraps() {
    let generator = shared(u32::MAX, [1, 2, 3], [4, 5]);
    assert_eq!(generator.generate(1).counter(), 0);
    assert_eq!(generator.generate(1).counter(), 1);
    let generator = shared(0x00ff_ffff, [1, 2, 3], [4, 5]);
    assert_eq!(generator.generate(1).counter(), 0);
    assert_eq!(generator.counter.load(Ordering::SeqCst), 0x0100_0000);
}

#[test]
fn generator_and_state_mint_alike() {
    let generator = shared(41, [9, 8, 7], [6, 5]);
    let mut state = State { counter: 41, machine_id: [9, 8, 7], pid: [6, 5] };
    for ts in [0, 1, 1, 77, u32::MAX] {
        assert_eq!(generator.generate(ts), state.mint(ts));
        assert_eq!(generator.counter.load(Ordering::SeqCst), state.counter);
    }
}

#[test]
fn three_bytes_give_the_start_of_the_counter() {
    assert_eq!(seed_from(&[0, 0, 0]), 0);
    assert_eq!(seed_from(&[0x41, 0x2d, 0xc9]), 4_271_561);
    assert_eq!(seed_from(&[0xff, 0xff, 0xff]), 0x00ff_ffff);
    assert_eq!(seed_from(&[1, 0, 0]), 0x0001_0000);
}
