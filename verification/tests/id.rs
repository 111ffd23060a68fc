use std::time::UNIX_EPOCH;

use xid::id::{decode, encode, gen_dec};
use xid::{Id, ParseIdError};

const RAW: [u8; 12] = [0x4d, 0x88, 0xe1, 0x5b, 0x60, 0xf4, 0x86, 0xe4, 0x28, 0x41, 0x2d, 0xc9];

#[test]
fn test_to_string() {
    assert_eq!(
        Id([0x4d, 0x88, 0xe1, 0x5b, 0x60, 0xf4, 0x86, 0xe4, 0x28, 0x41, 0x2d, 0xc9]).to_string(),
        "9m4e2mr0ui3e8a215n4g"
    );
}

#[test]
fn test_from_str_valid() {
    assert_eq!(
        Id::from_str("9m4e2mr0ui3e8a215n4g").unwrap(),
        Id([0x4d, 0x88, 0xe1, 0x5b, 0x60, 0xf4, 0x86, 0xe4, 0x28, 0x41, 0x2d, 0xc9])
    );
}

#[test]
fn test_from_str_invalid_length() {
    assert_eq!(
        Id::from_str("9m4e2mr0ui3e8a215n4"),
        Err(ParseIdError::InvalidLength(19))
    );
}

#[test]
fn test_from_str_invalid_char() {
    assert_eq!(
        Id::from_str("9z4e2mr0ui3e8a215n4g"),
        Err(ParseIdError::InvalidCharacter('z'))
    );
}

#[test]
fn test_extraction() {
    struct IDParts {
        raw: [u8; 12],
        timestamp: u64,
        machine_id: [u8; 3],
        pid: u16,
        counter: u32,
    }

    let tests = vec![
        IDParts {
            raw: [0x4d, 0x88, 0xe1, 0x5b, 0x60, 0xf4, 0x86, 0xe4, 0x28, 0x41, 0x2d, 0xc9],
            timestamp: 1_300_816_219,
            machine_id: [0x60, 0xf4, 0x86],
            pid: 0xe428,
            counter: 4_271_561,
        },
        IDParts {
            raw: [0x00, 0x00, 0x00, 0x00, 0x00, 0x00, 0x00, 0x00, 0x00, 0x00, 0x00, 0x00],
            timestamp: 0,
            machine_id: [0x00, 0x00, 0x00],
            pid: 0x0000,
            counter: 0,
        },
        IDParts {
            raw: [0x00, 0x00, 0x00, 0x00, 0xaa, 0xbb, 0xcc, 0xdd, 0xee, 0x00, 0x00, 0x01],
            timestamp: 0,
            machine_id: [0xaa, 0xbb, 0xcc],
            pid: 0xddee,
            counter: 1,
        },
    ];

    for t in tests {
        let id = Id(t.raw);
        assert_eq!(
            id.time().duration_since(UNIX_EPOCH).unwrap().as_secs(),
            t.timestamp
        );
        assert_eq!(id.machine(), t.machine_id);
        assert_eq!(id.pid(), t.pid);
        assert_eq!(id.counter(), t.counter);
    }
}

#[test]
fn as_bytes_gives_the_raw_bytes() {
    assert_eq!(Id(RAW).as_bytes(), &RAW);
}

#[test]
fn seconds_are_the_first_four_bytes() {
    assert_eq!(Id(RAW).seconds(), 1_300_816_219);
    assert_eq!(Id([0xff; 12]).seconds(), u32::MAX);
    assert_eq!(
        Id([0xff; 12]).time().duration_since(UNIX_EPOCH).unwrap().as_secs(),
        u64::from(u32::MAX)
    );
}

#[test]
fn largest_fields() {
    let id = Id([0xff; 12]);
    assert_eq!(id.machine(), [0xff, 0xff, 0xff]);
    assert_eq!(id.pid(), 0xffff);
    assert_eq!(id.counter(), 0x00ff_ffff);
}

#[test]
fn encode_gives_twenty_symbols() {
    assert_eq!(&encode(&RAW), b"9m4e2mr0ui3e8a215n4g");
    assert_eq!(&encode(&[0; 12]), b"00000000000000000000");
    assert_eq!(&encode(&[0xff; 12]), b"vvvvvvvvvvvvvvvvvvvg");
    assert_eq!(
        &encode(&[0, 0, 0, 0, 0, 0, 0, 0, 0, 0, 0, 1]),
        b"0000000000000000000g"
    );
}

#[test]
fn decode_reads_twenty_symbols() {
    assert_eq!(decode(b"9m4e2mr0ui3e8a215n4g"), RAW);
    assert_eq!(decode(b"00000000000000000000"), [0; 12]);
    assert_eq!(decode(b"vvvvvvvvvvvvvvvvvvvg"), [0xff; 12]);
}

#[test]
fn decode_counts_other_bytes_as_zero() {
    assert_eq!(decode(b"ZZZZZZZZZZZZZZZZZZZZ"), [0; 12]);
}

#[test]
fn table_holds_the_alphabet() {
    let dec = gen_dec();
    let alphabet = b"0123456789abcdefghijklmnopqrstuv";
    for b in 0..=255u8 {
        let expected = alphabet.iter().position(|&s| s == b).unwrap_or(0);
        assert_eq!(usize::from(dec[usize::from(b)]), expected);
    }
}

#[test]
fn round_trip_from_bytes() {
    let samples: [[u8; 12]; 4] = [
        [0; 12],
        [0xff; 12],
        RAW,
        [1, 2, 3, 4, 5, 6, 7, 8, 9, 10, 11, 12],
    ];
    for raw in samples {
        let text = Id(raw).to_string();
        assert_eq!(text.len(), 20);
        assert_eq!(Id::from_str(&text), Ok(Id(raw)));
    }
}

#[test]
fn round_trip_from_text() {
    for text in ["9m4e2mr0ui3e8a215n4g", "00000000000000000000", "vvvvvvvvvvvvvvvvvvvg", "0123456789abcdefghi0"] {
        assert_eq!(Id::from_str(text).unwrap().to_string(), text);
    }
}

#[test]
fn low_bits_of_the_last_symbol_are_left_out() {
    let id = Id::from_str("00000000000000000001").unwrap();
    assert_eq!(id, Id([0; 12]));
    assert_eq!(id.to_string(), "00000000000000000000");
    assert_eq!(Id::from_str("0000000000000000000v").unwrap().to_string(), "0000000000000000000g");
}

#[test]
fn text_sorts_as_bytes_do() {
    let samples: [[u8; 12]; 7] = [
        [0; 12],
        [0, 0, 0, 0, 0, 0, 0, 0, 0, 0, 0, 1],
        [0, 0, 0, 0, 0, 0, 0, 0, 0, 0, 1, 0],
        [0, 0, 0, 0, 0, 9, 0, 0, 0, 0, 0, 0],
        [0, 0, 0, 0, 0, 10, 0, 0, 0, 0, 0, 0],
        RAW,
        [0xff; 12],
    ];
    for a in samples {
        for b in samples {
            assert_eq!(a < b, Id(a).to_string() < Id(b).to_string());
            assert_eq!(Id(a) < Id(b), a < b);
        }
    }
}

#[test]
fn every_length_but_twenty_is_refused() {
    assert_eq!(Id::from_str(""), Err(ParseIdError::InvalidLength(0)));
    assert_eq!(
        Id::from_str("9m4e2mr0ui3e8a215n4g0"),
        Err(ParseIdError::InvalidLength(21))
    );
    assert_eq!(Id::from_str("zz"), Err(ParseIdError::InvalidLength(2)));
}

#[test]
fn length_counts_bytes() {
    assert_eq!(
        Id::from_str("\u{e9}\u{e9}\u{e9}\u{e9}\u{e9}\u{e9}\u{e9}\u{e9}\u{e9}\u{e9}\u{e9}\u{e9}\u{e9}\u{e9}\u{e9}\u{e9}\u{e9}\u{e9}\u{e9}\u{e9}"),
        Err(ParseIdError::InvalidLength(40))
    );
    assert_eq!(
        Id::from_str("000000000000000000\u{e9}"),
        Err(ParseIdError::InvalidCharacter('\u{e9}'))
    );
}

#[test]
fn the_first_character_outside_the_alphabet_is_named() {
    assert_eq!(
        Id::from_str("9m4e2mr0ui3e8a2w5nxg"),
        Err(ParseIdError::InvalidCharacter('w'))
    );
    assert_eq!(
        Id::from_str("9M4e2mr0ui3e8a215n4g"),
        Err(ParseIdError::InvalidCharacter('M'))
    );
    assert_eq!(
        Id::from_str("9m4e2mr0ui3e8a215n4 "),
        Err(ParseIdError::InvalidCharacter(' '))
    );
}

#[test]
fn parse_reads_the_text_form() {
    assert_eq!("9m4e2mr0ui3e8a215n4g".parse::<Id>(), Ok(Id(RAW)));
    assert_eq!("9m4e2mr0ui3e8a215n4".parse::<Id>(), Err(ParseIdError::InvalidLength(19)));
    assert_eq!(
        "9z4e2mr0ui3e8a215n4g".parse::<Id>(),
        Err(ParseIdError::InvalidCharacter('z'))
    );
}
