//! The text form and the raw bytes determine each other.
use vstd::prelude::*;
use vstd::string::*;

use crate::id::{
    ascii_bytes, ascii_chars, byte_at, decode_spec, encode_spec, group_at, is_alphabet_char,
    is_symbol, join20, lemma_encode_symbols, lemma_group_small, pack12, packed, reads_as, symbol,
    symbol_value, Id, ParseIdError,
};

verus! {

proof fn lemma_bytes_of_groups(
    r0: u8, r1: u8, r2: u8, r3: u8, r4: u8, r5: u8,
    r6: u8, r7: u8, r8: u8, r9: u8, r10: u8, r11: u8,
)
    by (bit_vector)
    ensures
        ({
            let w = pack12(r0, r1, r2, r3, r4, r5, r6, r7, r8, r9, r10, r11) << 4;
            let v = join20(
                group_at(w, 95), group_at(w, 90), group_at(w, 85), group_at(w, 80),
                group_at(w, 75), group_at(w, 70), group_at(w, 65), group_at(w, 60),
                group_at(w, 55), group_at(w, 50), group_at(w, 45), group_at(w, 40),
                group_at(w, 35), group_at(w, 30), group_at(w, 25), group_at(w, 20),
                group_at(w, 15), group_at(w, 10), group_at(w, 5), group_at(w, 0),
            ) >> 4;
            &&& byte_at(v, 88) == r0
            &&& byte_at(v, 80) == r1
            &&& byte_at(v, 72) == r2
            &&& byte_at(v, 64) == r3
            &&& byte_at(v, 56) == r4
            &&& byte_at(v, 48) == r5
            &&& byte_at(v, 40) == r6
            &&& byte_at(v, 32) == r7
            &&& byte_at(v, 24) == r8
            &&& byte_at(v, 16) == r9
            &&& byte_at(v, 8) == r10
            &&& byte_at(v, 0) == r11
        }),
{
}

proof fn lemma_groups_of_bytes(
    d0: u8, d1: u8, d2: u8, d3: u8, d4: u8, d5: u8, d6: u8, d7: u8, d8: u8, d9: u8,
    d10: u8, d11: u8, d12: u8, d13: u8, d14: u8, d15: u8, d16: u8, d17: u8, d18: u8, d19: u8,
)
    by (bit_vector)
    requires
        d0 < 32, d1 < 32, d2 < 32, d3 < 32, d4 < 32, d5 < 32, d6 < 32, d7 < 32, d8 < 32, d9 < 32,
        d10 < 32, d11 < 32, d12 < 32, d13 < 32, d14 < 32, d15 < 32, d16 < 32, d17 < 32, d18 < 32,
        d19 == 0 || d19 == 16,
    ensures
        ({
            let v = join20(
                d0, d1, d2, d3, d4, d5, d6, d7, d8, d9,
                d10, d11, d12, d13, d14, d15, d16, d17, d18, d19,
            ) >> 4;
            let w = pack12(
                byte_at(v, 88), byte_at(v, 80), byte_at(v, 72), byte_at(v, 64),
                byte_at(v, 56), byte_at(v, 48), byte_at(v, 40), byte_at(v, 32),
                byte_at(v, 24), byte_at(v, 16), byte_at(v, 8), byte_at(v, 0),
            ) << 4;
            &&& group_at(w, 95) == d0
            &&& group_at(w, 90) == d1
            &&& group_at(w, 85) == d2
            &&& group_at(w, 80) == d3
            &&& group_at(w, 75) == d4
            &&& group_at(w, 70) == d5
            &&& group_at(w, 65) == d6
            &&& group_at(w, 60) == d7
            &&& group_at(w, 55) == d8
            &&& group_at(w, 50) == d9
            &&& group_at(w, 45) == d10
            &&& group_at(w, 40) == d11
            &&& group_at(w, 35) == d12
            &&& group_at(w, 30) == d13
            &&& group_at(w, 25) == d14
            &&& group_at(w, 20) == d15
            &&& group_at(w, 15) == d16
            &&& group_at(w, 10) == d17
            &&& group_at(w, 5) == d18
            &&& group_at(w, 0) == d19
        }),
{
}

/// Reading the text form of twelve raw bytes gives those bytes back.
pub proof fn decode_of_encode(raw: Seq<u8>)
    requires
        raw.len() == 12,
    ensures
        decode_spec(encode_spec(raw)) == raw,
{
    let w = packed(raw) << 4;
    assert forall|s: u128| #[trigger] group_at(w, s) < 32 by {
        lemma_group_small(w, s);
    }
    assert forall|g: u8| g < 32 implies #[trigger] symbol_value(symbol(g)) == g by {}
    lemma_bytes_of_groups(
        raw[0], raw[1], raw[2], raw[3], raw[4], raw[5],
        raw[6], raw[7], raw[8], raw[9], raw[10], raw[11],
    );
    assert(decode_spec(encode_spec(raw)) =~= raw);
}

/// Whether a byte is a symbol that can end a text form: the last symbol
/// carries one bit of the identifier above four zero bits, so it is `0` or
/// `g`.
pub open spec fn is_last_symbol(b: u8) -> bool {
    b == 48 || b == 103
}

/// Writing the identifier that a text stands for gives that text back,
/// for a text of twenty symbols that ends as a text form does. (A text with
/// another last symbol is read as well, with the four low bits of that
/// symbol left out, and so is written back with another last symbol.)
pub proof fn encode_of_decode(text: Seq<u8>)
    requires
        text.len() == 20,
        forall|i: int| 0 <= i < 20 ==> is_symbol(#[trigger] text[i]),
        is_last_symbol(text[19]),
    ensures
        encode_spec(decode_spec(text)) == text,
{
    assert forall|b: u8| is_symbol(b) implies #[trigger] symbol(symbol_value(b)) == b
        && symbol_value(b) < 32 by {}
    assert(is_symbol(text[0]) && is_symbol(text[1]) && is_symbol(text[2]) && is_symbol(text[3]));
    assert(is_symbol(text[4]) && is_symbol(text[5]) && is_symbol(text[6]) && is_symbol(text[7]));
    assert(is_symbol(text[8]) && is_symbol(text[9]) && is_symbol(text[10]) && is_symbol(text[11]));
    assert(is_symbol(text[12]) && is_symbol(text[13]) && is_symbol(text[14]) && is_symbol(
        text[15],
    ));
    assert(is_symbol(text[16]) && is_symbol(text[17]) && is_symbol(text[18]) && is_symbol(
        text[19],
    ));
    lemma_groups_of_bytes(
        symbol_value(text[0]), symbol_value(text[1]), symbol_value(text[2]),
        symbol_value(text[3]), symbol_value(text[4]), symbol_value(text[5]),
        symbol_value(text[6]), symbol_value(text[7]), symbol_value(text[8]),
        symbol_value(text[9]), symbol_value(text[10]), symbol_value(text[11]),
        symbol_value(text[12]), symbol_value(text[13]), symbol_value(text[14]),
        symbol_value(text[15]), symbol_value(text[16]), symbol_value(text[17]),
        symbol_value(text[18]), symbol_value(text[19]),
    );
    assert(encode_spec(decode_spec(text)) =~= text);
}

/// Reading the text that `Id::to_string` writes for an identifier gives
/// that identifier back.
pub proof fn reads_back(id: Id, s: &str, r: Result<Id, ParseIdError>)
    requires
        s@ == ascii_chars(encode_spec(id@)),
        reads_as(s, r),
    ensures
        r is Ok,
        r->Ok_0@ == id@,
{
    broadcast use vstd::string::group_string_axioms;

    let text = encode_spec(id@);
    lemma_encode_symbols(id@);
    decode_of_encode(id@);
    assert forall|k: int| 0 <= k < s@.len() implies is_alphabet_char(#[trigger] s@[k]) by {
        assert(is_symbol(text[k]));
    }
    assert(is_ascii(s));
    assert(ascii_bytes(s@) =~= text);
}

} // verus!
