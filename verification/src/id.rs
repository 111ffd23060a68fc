//! The identifier: twelve bytes, their four fields, and the text form.
use std::time::SystemTime;
use vstd::prelude::*;
use vstd::string::*;

use crate::clock::{after_epoch, epoch_seconds};

verus! {

broadcast use vstd::string::group_string_axioms;

/// An identifier: a timestamp (bytes 0 to 3), a host fingerprint (4 to 6), a
/// process fingerprint (7 and 8) and a counter (9 to 11), each big-endian.
#[derive(Debug, PartialEq, Eq, PartialOrd, Ord, Clone, Copy, Hash)]
pub struct Id(pub [u8; 12]);

/// Why a text is not the text form of an identifier.
#[derive(Debug, PartialEq, Eq)]
pub enum ParseIdError {
    /// The text does not have 20 bytes; holds the length it has.
    InvalidLength(usize),
    /// The text holds a character outside `[0-9a-v]`; holds the first such.
    InvalidCharacter(char),
}

impl View for Id {
    type V = Seq<u8>;

    open spec fn view(&self) -> Seq<u8> {
        self.0@
    }
}

/// The symbol of the alphabet `0123456789abcdefghijklmnopqrstuv` that stands
/// for a five-bit value, as an ASCII byte.
pub open spec fn symbol(v: u8) -> u8 {
    if v < 10 {
        (48 + v) as u8
    } else {
        (87 + v) as u8
    }
}

/// Whether an ASCII byte is a symbol of the alphabet.
pub open spec fn is_symbol(b: u8) -> bool {
    48 <= b <= 57 || 97 <= b <= 118
}

/// The five-bit value of a symbol; 0 for any other byte.
pub open spec fn symbol_value(b: u8) -> u8 {
    if 48 <= b <= 57 {
        (b - 48) as u8
    } else if 97 <= b <= 118 {
        (b - 87) as u8
    } else {
        0
    }
}

/// Twelve bytes read as one big-endian number of 96 bits.
pub open spec fn pack12(
    r0: u8, r1: u8, r2: u8, r3: u8, r4: u8, r5: u8,
    r6: u8, r7: u8, r8: u8, r9: u8, r10: u8, r11: u8,
) -> u128 {
    (r0 as u128) << 88 | (r1 as u128) << 80 | (r2 as u128) << 72 | (r3 as u128) << 64
        | (r4 as u128) << 56 | (r5 as u128) << 48 | (r6 as u128) << 40 | (r7 as u128) << 32
        | (r8 as u128) << 24 | (r9 as u128) << 16 | (r10 as u128) << 8 | (r11 as u128)
}

/// The raw bytes of an identifier as one number.
pub open spec fn packed(raw: Seq<u8>) -> u128 {
    pack12(
        raw[0], raw[1], raw[2], raw[3], raw[4], raw[5],
        raw[6], raw[7], raw[8], raw[9], raw[10], raw[11],
    )
}

/// The five bits of `w` that start `shift` bits above the lowest.
pub open spec fn group_at(w: u128, shift: u128) -> u8 {
    ((w >> shift) & 31) as u8
}

/// The eight bits of `v` that start `shift` bits above the lowest.
pub open spec fn byte_at(v: u128, shift: u128) -> u8 {
    ((v >> shift) & 0xff) as u8
}

/// The text form of twelve raw bytes: the 96 bits, followed by four zero
/// bits, cut into twenty groups of five, highest first, each written as its
/// symbol.
pub open spec fn encode_spec(raw: Seq<u8>) -> Seq<u8> {
    let w = packed(raw) << 4;
    seq![
        symbol(group_at(w, 95)), symbol(group_at(w, 90)), symbol(group_at(w, 85)),
        symbol(group_at(w, 80)), symbol(group_at(w, 75)), symbol(group_at(w, 70)),
        symbol(group_at(w, 65)), symbol(group_at(w, 60)), symbol(group_at(w, 55)),
        symbol(group_at(w, 50)), symbol(group_at(w, 45)), symbol(group_at(w, 40)),
        symbol(group_at(w, 35)), symbol(group_at(w, 30)), symbol(group_at(w, 25)),
        symbol(group_at(w, 20)), symbol(group_at(w, 15)), symbol(group_at(w, 10)),
        symbol(group_at(w, 5)), symbol(group_at(w, 0)),
    ]
}

/// Twenty five-bit values joined into one number of 100 bits, the first
/// value highest.
pub open spec fn join20(
    d0: u8, d1: u8, d2: u8, d3: u8, d4: u8, d5: u8, d6: u8, d7: u8, d8: u8, d9: u8,
    d10: u8, d11: u8, d12: u8, d13: u8, d14: u8, d15: u8, d16: u8, d17: u8, d18: u8, d19: u8,
) -> u128 {
    (d0 as u128) << 95 | (d1 as u128) << 90 | (d2 as u128) << 85 | (d3 as u128) << 80
        | (d4 as u128) << 75 | (d5 as u128) << 70 | (d6 as u128) << 65 | (d7 as u128) << 60
        | (d8 as u128) << 55 | (d9 as u128) << 50 | (d10 as u128) << 45 | (d11 as u128) << 40
        | (d12 as u128) << 35 | (d13 as u128) << 30 | (d14 as u128) << 25 | (d15 as u128) << 20
        | (d16 as u128) << 15 | (d17 as u128) << 10 | (d18 as u128) << 5 | (d19 as u128)
}

/// The 100 bits that twenty bytes of text stand for, each byte taken by its
/// value in the alphabet.
pub open spec fn joined(text: Seq<u8>) -> u128 {
    join20(
        symbol_value(text[0]), symbol_value(text[1]), symbol_value(text[2]),
        symbol_value(text[3]), symbol_value(text[4]), symbol_value(text[5]),
        symbol_value(text[6]), symbol_value(text[7]), symbol_value(text[8]),
        symbol_value(text[9]), symbol_value(text[10]), symbol_value(text[11]),
        symbol_value(text[12]), symbol_value(text[13]), symbol_value(text[14]),
        symbol_value(text[15]), symbol_value(text[16]), symbol_value(text[17]),
        symbol_value(text[18]), symbol_value(text[19]),
    )
}

/// The twelve raw bytes that twenty bytes of text stand for: the 100 bits
/// without their lowest four, cut into bytes, highest first.
pub open spec fn decode_spec(text: Seq<u8>) -> Seq<u8> {
    let v = joined(text) >> 4;
    seq![
        byte_at(v, 88), byte_at(v, 80), byte_at(v, 72), byte_at(v, 64),
        byte_at(v, 56), byte_at(v, 48), byte_at(v, 40), byte_at(v, 32),
        byte_at(v, 24), byte_at(v, 16), byte_at(v, 8), byte_at(v, 0),
    ]
}

/// The timestamp of raw bytes: bytes 0 to 3 as a big-endian number.
pub open spec fn seconds_of(raw: Seq<u8>) -> nat {
    (raw[0] * 0x100_0000 + raw[1] * 0x1_0000 + raw[2] * 0x100 + raw[3]) as nat
}

/// The process fingerprint of raw bytes: bytes 7 and 8 as a big-endian
/// number.
pub open spec fn pid_of(raw: Seq<u8>) -> nat {
    (raw[7] * 0x100 + raw[8]) as nat
}

/// The counter of raw bytes: bytes 9 to 11 as a big-endian number.
pub open spec fn counter_of(raw: Seq<u8>) -> nat {
    (raw[9] * 0x1_0000 + raw[10] * 0x100 + raw[11]) as nat
}

/// Whether a character belongs to the alphabet `[0-9a-v]`.
pub open spec fn is_alphabet_char(c: char) -> bool {
    ('0' <= c <= '9') || ('a' <= c <= 'v')
}

/// Whether every character of a text belongs to the alphabet.
pub open spec fn all_alphabet(text: Seq<char>) -> bool {
    forall|i: int| 0 <= i < text.len() ==> is_alphabet_char(#[trigger] text[i])
}

/// Whether `k` is the place of the first character of `text` outside the
/// alphabet.
pub open spec fn first_outside(text: Seq<char>, k: int) -> bool {
    &&& 0 <= k < text.len()
    &&& !is_alphabet_char(text[k])
    &&& forall|j: int| 0 <= j < k ==> is_alphabet_char(#[trigger] text[j])
}

/// Whether `r` is what reading the text `s` gives: a text whose length in
/// bytes is not 20 is refused with that length; a text of 20 bytes with a
/// character outside the alphabet is refused with the first such character;
/// any other text has 20 characters and gives the identifier whose bytes
/// they stand for.
pub open spec fn reads_as(s: &str, r: Result<Id, ParseIdError>) -> bool {
    if s.spec_bytes().len() != 20 {
        r is Err && r->Err_0 is InvalidLength && r->Err_0->InvalidLength_0
            == s.spec_bytes().len()
    } else if !all_alphabet(s@) {
        exists|k: int|
            first_outside(s@, k) && r == Err::<Id, ParseIdError>(
                ParseIdError::InvalidCharacter(#[trigger] s@[k]),
            )
    } else {
        s@.len() == 20 && r is Ok && r->Ok_0@ == decode_spec(ascii_bytes(s@))
    }
}

/// The bytes of a text of ASCII characters.
pub open spec fn ascii_bytes(text: Seq<char>) -> Seq<u8> {
    Seq::new(text.len(), |i: int| text[i] as u8)
}

/// The characters of a sequence of ASCII bytes.
pub open spec fn ascii_chars(bytes: Seq<u8>) -> Seq<char> {
    Seq::new(bytes.len(), |i: int| bytes[i] as char)
}

proof fn lemma_encode_groups(
    r0: u8, r1: u8, r2: u8, r3: u8, r4: u8, r5: u8,
    r6: u8, r7: u8, r8: u8, r9: u8, r10: u8, r11: u8,
)
    by (bit_vector)
    ensures
        ({
            let w = pack12(r0, r1, r2, r3, r4, r5, r6, r7, r8, r9, r10, r11) << 4;
            &&& group_at(w, 95) == r0 >> 3
            &&& group_at(w, 90) == ((r1 >> 6) | (r0 << 2)) & 31
            &&& group_at(w, 85) == (r1 >> 1) & 31
            &&& group_at(w, 80) == ((r2 >> 4) | (r1 << 4)) & 31
            &&& group_at(w, 75) == ((r3 >> 7) | (r2 << 1)) & 31
            &&& group_at(w, 70) == (r3 >> 2) & 31
            &&& group_at(w, 65) == ((r4 >> 5) | (r3 << 3)) & 31
            &&& group_at(w, 60) == r4 & 31
            &&& group_at(w, 55) == r5 >> 3
            &&& group_at(w, 50) == ((r6 >> 6) | (r5 << 2)) & 31
            &&& group_at(w, 45) == (r6 >> 1) & 31
            &&& group_at(w, 40) == ((r7 >> 4) | (r6 << 4)) & 31
            &&& group_at(w, 35) == ((r8 >> 7) | (r7 << 1)) & 31
            &&& group_at(w, 30) == (r8 >> 2) & 31
            &&& group_at(w, 25) == ((r9 >> 5) | (r8 << 3)) & 31
            &&& group_at(w, 20) == r9 & 31
            &&& group_at(w, 15) == r10 >> 3
            &&& group_at(w, 10) == ((r11 >> 6) | (r10 << 2)) & 31
            &&& group_at(w, 5) == (r11 >> 1) & 31
            &&& group_at(w, 0) == (r11 << 4) & 31
        }),
{
}

pub(crate) proof fn lemma_group_small(w: u128, shift: u128)
    by (bit_vector)
    ensures
        group_at(w, shift) < 32,
{
}

/// The symbol for a five-bit value.
fn symbol_of(v: u8) -> (b: u8)
    requires
        v < 32,
    ensures
        b == symbol(v),
{
    if v < 10 {
        48 + v
    } else {
        87 + v
    }
}

/// The text form of twelve raw bytes, as twenty ASCII bytes.
pub fn encode(raw: &[u8; 12]) -> (text: [u8; 20])
    ensures
        text@ == encode_spec(raw@),
{
    let r0 = raw[0];
    let r1 = raw[1];
    let r2 = raw[2];
    let r3 = raw[3];
    let r4 = raw[4];
    let r5 = raw[5];
    let r6 = raw[6];
    let r7 = raw[7];
    let r8 = raw[8];
    let r9 = raw[9];
    let r10 = raw[10];
    let r11 = raw[11];
    proof {
        let w = packed(raw@) << 4;
        lemma_encode_groups(r0, r1, r2, r3, r4, r5, r6, r7, r8, r9, r10, r11);
        assert forall|s: u128| #[trigger] group_at(w, s) < 32 by {
            lemma_group_small(w, s);
        }
    }
    let text = [
        symbol_of(r0 >> 3),
        symbol_of(((r1 >> 6) | (r0 << 2)) & 31),
        symbol_of((r1 >> 1) & 31),
        symbol_of(((r2 >> 4) | (r1 << 4)) & 31),
        symbol_of(((r3 >> 7) | (r2 << 1)) & 31),
        symbol_of((r3 >> 2) & 31),
        symbol_of(((r4 >> 5) | (r3 << 3)) & 31),
        symbol_of(r4 & 31),
        symbol_of(r5 >> 3),
        symbol_of(((r6 >> 6) | (r5 << 2)) & 31),
        symbol_of((r6 >> 1) & 31),
        symbol_of(((r7 >> 4) | (r6 << 4)) & 31),
        symbol_of(((r8 >> 7) | (r7 << 1)) & 31),
        symbol_of((r8 >> 2) & 31),
        symbol_of(((r9 >> 5) | (r8 << 3)) & 31),
        symbol_of(r9 & 31),
        symbol_of(r10 >> 3),
        symbol_of(((r11 >> 6) | (r10 << 2)) & 31),
        symbol_of((r11 >> 1) & 31),
        symbol_of((r11 << 4) & 31),
    ];
    assert(text@ =~= encode_spec(raw@));
    text
}

proof fn lemma_decode_bytes(
    d0: u8, d1: u8, d2: u8, d3: u8, d4: u8, d5: u8, d6: u8, d7: u8, d8: u8, d9: u8,
    d10: u8, d11: u8, d12: u8, d13: u8, d14: u8, d15: u8, d16: u8, d17: u8, d18: u8, d19: u8,
)
    by (bit_vector)
    requires
        d0 < 32, d1 < 32, d2 < 32, d3 < 32, d4 < 32, d5 < 32, d6 < 32, d7 < 32, d8 < 32, d9 < 32,
        d10 < 32, d11 < 32, d12 < 32, d13 < 32, d14 < 32, d15 < 32, d16 < 32, d17 < 32, d18 < 32,
        d19 < 32,
    ensures
        ({
            let v = join20(
                d0, d1, d2, d3, d4, d5, d6, d7, d8, d9,
                d10, d11, d12, d13, d14, d15, d16, d17, d18, d19,
            ) >> 4;
            &&& byte_at(v, 88) == (d0 << 3) | (d1 >> 2)
            &&& byte_at(v, 80) == (d1 << 6) | (d2 << 1) | (d3 >> 4)
            &&& byte_at(v, 72) == (d3 << 4) | (d4 >> 1)
            &&& byte_at(v, 64) == (d4 << 7) | (d5 << 2) | (d6 >> 3)
            &&& byte_at(v, 56) == (d6 << 5) | d7
            &&& byte_at(v, 48) == (d8 << 3) | (d9 >> 2)
            &&& byte_at(v, 40) == (d9 << 6) | (d10 << 1) | (d11 >> 4)
            &&& byte_at(v, 32) == (d11 << 4) | (d12 >> 1)
            &&& byte_at(v, 24) == (d12 << 7) | (d13 << 2) | (d14 >> 3)
            &&& byte_at(v, 16) == (d14 << 5) | d15
            &&& byte_at(v, 8) == (d16 << 3) | (d17 >> 2)
            &&& byte_at(v, 0) == (d17 << 6) | (d18 << 1) | (d19 >> 4)
        }),
{
}

/// The table that gives each byte its value in the alphabet, and 0 to every
/// byte outside it.
pub fn gen_dec() -> (dec: [u8; 256])
    ensures
        forall|b: u8| #[trigger] dec@[b as int] == symbol_value(b),
{
    let mut dec = [0_u8; 256];
    let mut i: usize = 0;
    while i < 256
        invariant
            i <= 256,
            forall|b: u8| (b as int) < i ==> #[trigger] dec@[b as int] == symbol_value(b),
        decreases 256 - i,
    {
        let b: u8 = i as u8;
        let v: u8 = if 48 <= b && b <= 57 {
            b - 48
        } else if 97 <= b && b <= 118 {
            b - 87
        } else {
            0
        };
        dec[i] = v;
        i += 1;
    }
    dec
}

/// The raw bytes that twenty bytes of text stand for. A byte outside the
/// alphabet counts as the value 0.
pub fn decode(text: &[u8; 20]) -> (raw: [u8; 12])
    ensures
        raw@ == decode_spec(text@),
{
    let dec = gen_dec();
    let d0 = dec[text[0] as usize];
    let d1 = dec[text[1] as usize];
    let d2 = dec[text[2] as usize];
    let d3 = dec[text[3] as usize];
    let d4 = dec[text[4] as usize];
    let d5 = dec[text[5] as usize];
    let d6 = dec[text[6] as usize];
    let d7 = dec[text[7] as usize];
    let d8 = dec[text[8] as usize];
    let d9 = dec[text[9] as usize];
    let d10 = dec[text[10] as usize];
    let d11 = dec[text[11] as usize];
    let d12 = dec[text[12] as usize];
    let d13 = dec[text[13] as usize];
    let d14 = dec[text[14] as usize];
    let d15 = dec[text[15] as usize];
    let d16 = dec[text[16] as usize];
    let d17 = dec[text[17] as usize];
    let d18 = dec[text[18] as usize];
    let d19 = dec[text[19] as usize];
    proof {
        lemma_decode_bytes(
            d0, d1, d2, d3, d4, d5, d6, d7, d8, d9,
            d10, d11, d12, d13, d14, d15, d16, d17, d18, d19,
        );
    }
    let raw = [
        (d0 << 3) | (d1 >> 2),
        (d1 << 6) | (d2 << 1) | (d3 >> 4),
        (d3 << 4) | (d4 >> 1),
        (d4 << 7) | (d5 << 2) | (d6 >> 3),
        (d6 << 5) | d7,
        (d8 << 3) | (d9 >> 2),
        (d9 << 6) | (d10 << 1) | (d11 >> 4),
        (d11 << 4) | (d12 >> 1),
        (d12 << 7) | (d13 << 2) | (d14 >> 3),
        (d14 << 5) | d15,
        (d16 << 3) | (d17 >> 2),
        (d17 << 6) | (d18 << 1) | (d19 >> 4),
    ];
    assert(raw@ =~= decode_spec(text@));
    raw
}

/// Calls `String::from_utf8` on ASCII bytes. Trusted: the string that comes
/// back holds one character for each byte, the character with that byte's
/// number. ASCII bytes are valid UTF-8, so the call does not fail.
#[verifier::external_body]
fn string_of_ascii(bytes: Vec<u8>) -> (s: String)
    requires
        forall|i: int| 0 <= i < bytes@.len() ==> bytes@[i] < 128,
    ensures
        s@ == ascii_chars(bytes@),
{
    match String::from_utf8(bytes) {
        Ok(s) => s,
        Err(_) => String::new(),
    }
}

/// Whether a character belongs to the alphabet.
fn in_alphabet(c: char) -> (r: bool)
    ensures
        r == is_alphabet_char(c),
{
    ('0' <= c && c <= '9') || ('a' <= c && c <= 'v')
}

impl Id {
    /// The timestamp in seconds since the Unix epoch.
    pub open spec fn spec_seconds(&self) -> nat {
        seconds_of(self@)
    }

    /// The process fingerprint.
    pub open spec fn spec_pid(&self) -> nat {
        pid_of(self@)
    }

    /// The counter.
    pub open spec fn spec_counter(&self) -> nat {
        counter_of(self@)
    }

    /// The binary representation of the identifier.
    #[must_use]
    pub fn as_bytes(&self) -> (raw: &[u8; 12])
        ensures
            raw@ == self@,
    {
        &self.0
    }

    /// The host fingerprint: bytes 4 to 6.
    #[must_use]
    pub fn machine(&self) -> (m: [u8; 3])
        ensures
            m@ == self@.subrange(4, 7),
    {
        let raw = self.as_bytes();
        let m = [raw[4], raw[5], raw[6]];
        assert(m@ =~= self@.subrange(4, 7));
        m
    }

    /// The process fingerprint.
    #[must_use]
    pub fn pid(&self) -> (p: u16)
        ensures
            p == self.spec_pid(),
    {
        let raw = self.as_bytes();
        (raw[7] as u16) * 0x100 + (raw[8] as u16)
    }

    /// The timestamp in seconds since the Unix epoch.
    #[must_use]
    pub fn seconds(&self) -> (secs: u32)
        ensures
            secs == self.spec_seconds(),
    {
        let raw = self.as_bytes();
        (raw[0] as u32) * 0x100_0000 + (raw[1] as u32) * 0x1_0000 + (raw[2] as u32) * 0x100
            + (raw[3] as u32)
    }

    /// The timestamp as a point in time: the Unix epoch and that many seconds.
    #[must_use]
    pub fn time(&self) -> (t: SystemTime)
        ensures
            epoch_seconds(t) == Some(self.spec_seconds() as u64),
    {
        after_epoch(self.seconds())
    }

    /// The counter, a number of 24 bits.
    #[must_use]
    pub fn counter(&self) -> (c: u32)
        ensures
            c == self.spec_counter(),
            c < 0x100_0000,
    {
        let raw = self.as_bytes();
        (raw[9] as u32) * 0x1_0000 + (raw[10] as u32) * 0x100 + (raw[11] as u32)
    }

    /// The text form: twenty characters of the alphabet.
    pub fn to_string(&self) -> (s: String)
        ensures
            s@ == ascii_chars(encode_spec(self@)),
            ascii_bytes(s@) == encode_spec(self@),
            s@.len() == 20,
            all_alphabet(s@),
    {
        let text = encode(&self.0);
        proof {
            lemma_encode_symbols(self@);
        }
        let mut bytes: Vec<u8> = Vec::new();
        let mut i: usize = 0;
        while i < 20
            invariant
                i <= 20,
                text@ == encode_spec(self@),
                bytes@ == text@.subrange(0, i as int),
            decreases 20 - i,
        {
            bytes.push(text[i]);
            i += 1;
            assert(bytes@ =~= text@.subrange(0, i as int));
        }
        assert(bytes@ =~= text@);
        let s = string_of_ascii(bytes);
        assert(ascii_bytes(s@) =~= encode_spec(self@));
        assert forall|k: int| 0 <= k < s@.len() implies is_alphabet_char(#[trigger] s@[k]) by {
            assert(is_symbol(text@[k]));
        }
        s
    }

    /// Reads the text form. A text whose length in bytes is not 20 is
    /// refused with that length; a text of 20 bytes with a character outside
    /// the alphabet is refused with the first such character; any other text
    /// gives the identifier it stands for.
    pub fn from_str(s: &str) -> (r: Result<Id, ParseIdError>)
        ensures
            reads_as(s, r),
    {
        let bs = s.as_bytes();
        if bs.len() != 20 {
            return Err(ParseIdError::InvalidLength(bs.len()));
        }
        let n = s.unicode_len();
        let mut i: usize = 0;
        while i < n
            invariant
                i <= n,
                n == s@.len(),
                s.spec_bytes().len() == 20,
                forall|j: int| 0 <= j < i ==> is_alphabet_char(#[trigger] s@[j]),
            decreases n - i,
        {
            let c = s.get_char(i);
            if !in_alphabet(c) {
                assert(first_outside(s@, i as int));
                return Err(ParseIdError::InvalidCharacter(c));
            }
            i += 1;
        }
        assert(all_alphabet(s@));
        assert(is_ascii(s));
        assert(bs@ =~= ascii_bytes(s@));
        let text = [
            bs[0], bs[1], bs[2], bs[3], bs[4], bs[5], bs[6], bs[7], bs[8], bs[9],
            bs[10], bs[11], bs[12], bs[13], bs[14], bs[15], bs[16], bs[17], bs[18], bs[19],
        ];
        assert(text@ =~= ascii_bytes(s@));
        Ok(Id(decode(&text)))
    }
}

impl std::str::FromStr for Id {
    type Err = ParseIdError;

    /// Reads the text form, as `Id::from_str` does.
    fn from_str(s: &str) -> (r: Result<Self, Self::Err>)
        ensures
            reads_as(s, r),
    {
        Id::from_str(s)
    }
}

/// Every byte of a text form is a symbol of the alphabet.
pub proof fn lemma_encode_symbols(raw: Seq<u8>)
    ensures
        encode_spec(raw).len() == 20,
        forall|i: int| 0 <= i < 20 ==> is_symbol(#[trigger] encode_spec(raw)[i]),
{
    let w = packed(raw) << 4;
    assert forall|s: u128| #[trigger] group_at(w, s) < 32 by {
        lemma_group_small(w, s);
    }
}

} // verus!
