//! The text form sorts as the raw bytes do.
use vstd::prelude::*;

use crate::id::{encode_spec, group_at, pack12, packed, symbol};

verus! {

/// Whether `k` is a place that puts `a` before `b` in lexicographic order:
/// the two agree before `k`, and at `k` either `a` has the smaller byte or
/// `a` ends while `b` goes on.
pub open spec fn less_at(a: Seq<u8>, b: Seq<u8>, k: int) -> bool {
    &&& 0 <= k <= a.len()
    &&& k <= b.len()
    &&& forall|j: int| 0 <= j < k ==> a[j] == b[j]
    &&& if k < a.len() && k < b.len() {
        a[k] < b[k]
    } else {
        k == a.len() && k < b.len()
    }
}

/// Lexicographic order on byte strings: `a` comes strictly before `b`.
pub open spec fn lex_less(a: Seq<u8>, b: Seq<u8>) -> bool {
    exists|k: int| less_at(a, b, k)
}

spec fn first_gap(a: Seq<u8>, b: Seq<u8>, i: int, k: int) -> bool {
    &&& i <= k < a.len()
    &&& a[k] < b[k]
    &&& forall|j: int| i <= j < k ==> a[j] == b[j]
}

spec fn less_from(a: Seq<u8>, b: Seq<u8>, i: int) -> bool
    decreases a.len() - i,
{
    if 0 <= i < a.len() {
        step(a[i], b[i], less_from(a, b, i + 1))
    } else {
        false
    }
}

spec fn step(x: u8, y: u8, rest: bool) -> bool {
    x < y || (x == y && rest)
}

proof fn lemma_less_from(a: Seq<u8>, b: Seq<u8>, i: int)
    requires
        a.len() == b.len(),
        0 <= i <= a.len(),
    ensures
        less_from(a, b, i) <==> exists|k: int| first_gap(a, b, i, k),
    decreases a.len() - i,
{
    if i < a.len() {
        lemma_less_from(a, b, i + 1);
        if less_from(a, b, i) {
            if a[i] < b[i] {
                assert(first_gap(a, b, i, i));
            } else {
                let n = i + 1;
                let k = choose|k: int| first_gap(a, b, n, k);
                assert(first_gap(a, b, i, k));
            }
        }
        if exists|k: int| first_gap(a, b, i, k) {
            let k = choose|k: int| first_gap(a, b, i, k);
            if k != i {
                assert(a[i] == b[i]);
                assert(first_gap(a, b, i + 1, k));
            }
        }
    }
}

proof fn lemma_lex_less(a: Seq<u8>, b: Seq<u8>)
    requires
        a.len() == b.len(),
    ensures
        lex_less(a, b) <==> less_from(a, b, 0),
{
    lemma_less_from(a, b, 0);
    if lex_less(a, b) {
        let k = choose|k: int| less_at(a, b, k);
        assert(first_gap(a, b, 0, k));
    }
    if less_from(a, b, 0) {
        let k = choose|k: int| first_gap(a, b, 0, k);
        assert(less_at(a, b, k));
    }
}

proof fn lemma_bytes_order(
    a0: u8, a1: u8, a2: u8, a3: u8, a4: u8, a5: u8,
    a6: u8, a7: u8, a8: u8, a9: u8, a10: u8, a11: u8,
    b0: u8, b1: u8, b2: u8, b3: u8, b4: u8, b5: u8,
    b6: u8, b7: u8, b8: u8, b9: u8, b10: u8, b11: u8,
)
    by (bit_vector)
    ensures
        pack12(a0, a1, a2, a3, a4, a5, a6, a7, a8, a9, a10, a11)
            < 0x1_0000_0000_0000_0000_0000_0000u128,
        step(a0, b0, step(a1, b1, step(a2, b2, step(a3, b3, step(a4, b4, step(a5, b5,
            step(a6, b6, step(a7, b7, step(a8, b8, step(a9, b9, step(a10, b10,
            step(a11, b11, false)))))))))))) == (
            pack12(a0, a1, a2, a3, a4, a5, a6, a7, a8, a9, a10, a11)
                < pack12(b0, b1, b2, b3, b4, b5, b6, b7, b8, b9, b10, b11)),
{
}

proof fn lemma_text_order(x: u128, y: u128)
    by (bit_vector)
    requires
        x < 0x1_0000_0000_0000_0000_0000_0000u128,
        y < 0x1_0000_0000_0000_0000_0000_0000u128,
    ensures
        ({
            let v = x << 4;
            let w = y << 4;
            step(symbol(group_at(v, 95)), symbol(group_at(w, 95)),
            step(symbol(group_at(v, 90)), symbol(group_at(w, 90)),
            step(symbol(group_at(v, 85)), symbol(group_at(w, 85)),
            step(symbol(group_at(v, 80)), symbol(group_at(w, 80)),
            step(symbol(group_at(v, 75)), symbol(group_at(w, 75)),
            step(symbol(group_at(v, 70)), symbol(group_at(w, 70)),
            step(symbol(group_at(v, 65)), symbol(group_at(w, 65)),
            step(symbol(group_at(v, 60)), symbol(group_at(w, 60)),
            step(symbol(group_at(v, 55)), symbol(group_at(w, 55)),
            step(symbol(group_at(v, 50)), symbol(group_at(w, 50)),
            step(symbol(group_at(v, 45)), symbol(group_at(w, 45)),
            step(symbol(group_at(v, 40)), symbol(group_at(w, 40)),
            step(symbol(group_at(v, 35)), symbol(group_at(w, 35)),
            step(symbol(group_at(v, 30)), symbol(group_at(w, 30)),
            step(symbol(group_at(v, 25)), symbol(group_at(w, 25)),
            step(symbol(group_at(v, 20)), symbol(group_at(w, 20)),
            step(symbol(group_at(v, 15)), symbol(group_at(w, 15)),
            step(symbol(group_at(v, 10)), symbol(group_at(w, 10)),
            step(symbol(group_at(v, 5)), symbol(group_at(w, 5)),
            step(symbol(group_at(v, 0)), symbol(group_at(w, 0)), false))))))))))))))))))))
                == (x < y)
        }),
{
}

/// The raw bytes of one identifier come before those of another exactly
/// when its text form comes before the other's.
pub proof fn encode_keeps_order(a: Seq<u8>, b: Seq<u8>)
    requires
        a.len() == 12,
        b.len() == 12,
    ensures
        lex_less(a, b) <==> lex_less(encode_spec(a), encode_spec(b)),
{
    let ta = encode_spec(a);
    let tb = encode_spec(b);
    lemma_lex_less(a, b);
    lemma_lex_less(ta, tb);
    lemma_bytes_order(
        a[0], a[1], a[2], a[3], a[4], a[5], a[6], a[7], a[8], a[9], a[10], a[11],
        b[0], b[1], b[2], b[3], b[4], b[5], b[6], b[7], b[8], b[9], b[10], b[11],
    );
    lemma_bytes_order(
        b[0], b[1], b[2], b[3], b[4], b[5], b[6], b[7], b[8], b[9], b[10], b[11],
        a[0], a[1], a[2], a[3], a[4], a[5], a[6], a[7], a[8], a[9], a[10], a[11],
    );
    lemma_text_order(packed(a), packed(b));
    assert(less_from(a, b, 0) == (packed(a) < packed(b))) by {
        reveal_with_fuel(less_from, 14);
    }
    assert(less_from(ta, tb, 0) == (packed(a) < packed(b))) by {
        reveal_with_fuel(less_from, 22);
    }
}

} // verus!
