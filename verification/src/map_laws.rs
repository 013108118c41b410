//! What map keys and values compare by: the equality that decides whether
//! an entry leaves a key or value out, and the order that lookups follow.
use vstd::prelude::*;

use crate::arena::{lex_order, KeyOrder, MapKey};
use crate::encoding::arena_map::MapValue;
use vstd::string::StringSliceAdditionalSpecFns;

verus! {

/// Integer and boolean keys and values are the same exactly when they are
/// equal, so an entry leaves out only a key or value equal to its default.
pub proof fn law_same_numbers(
    a: i32,
    b: i32,
    c: i64,
    d: i64,
    e: u32,
    f: u32,
    g: u64,
    h: u64,
    x: bool,
    y: bool,
)
    ensures
        a.same(&b) <==> a == b,
        c.same(&d) <==> c == d,
        e.same(&f) <==> e == f,
        g.same(&h) <==> g == h,
        x.same(&y) <==> x == y,
{
}

/// Strings and byte strings are the same exactly when they hold the same
/// characters or bytes.
pub proof fn law_same_text(a: &str, b: &str, c: String, d: String, e: &[u8], f: &[u8], g: Vec<u8>, h: Vec<u8>)
    ensures
        a.same(&b) <==> a@ == b@,
        c.same(&d) <==> c@ == d@,
        e.same(&f) <==> e@ == f@,
        g.same(&h) <==> g@ == h@,
{
}

/// The order of two numbers.
pub open spec fn order_of(a: int, b: int) -> KeyOrder {
    if a < b {
        KeyOrder::Less
    } else if a == b {
        KeyOrder::Equal
    } else {
        KeyOrder::Greater
    }
}

/// Integer keys are ordered as the integers are, signed ones with negative
/// numbers first, and `false` comes before `true`.
pub proof fn law_number_keys(
    a: i32,
    b: i32,
    c: i64,
    d: i64,
    e: u32,
    f: u32,
    g: u64,
    h: u64,
    x: bool,
    y: bool,
)
    ensures
        lex_order(a.key_seq(), b.key_seq()) == order_of(a as int, b as int),
        lex_order(c.key_seq(), d.key_seq()) == order_of(c as int, d as int),
        lex_order(e.key_seq(), f.key_seq()) == order_of(e as int, f as int),
        lex_order(g.key_seq(), h.key_seq()) == order_of(g as int, h as int),
        lex_order(x.key_seq(), y.key_seq()) == order_of(
            if x {
                1
            } else {
                0
            },
            if y {
                1
            } else {
                0
            },
        ),
{
    reveal_with_fuel(lex_order, 2);
}

/// Whether `a` comes before `b` in dictionary order: at the first position
/// where they differ `a` is smaller, or `a` is a proper prefix of `b`.
pub open spec fn dictionary_before(a: Seq<int>, b: Seq<int>) -> bool {
    exists|k: int|
        0 <= k <= a.len() && k <= b.len() && #[trigger] a.take(k) == b.take(k) && ((k == a.len()
            && k < b.len()) || (k < a.len() && k < b.len() && a[k] < b[k]))
}

/// Lexicographic order puts `a` first exactly when it comes first in
/// dictionary order, and finds two sequences equal exactly when they are.
pub proof fn law_lex_order(a: Seq<int>, b: Seq<int>)
    ensures
        (lex_order(a, b) == KeyOrder::Less) <==> dictionary_before(a, b),
        (lex_order(a, b) == KeyOrder::Equal) <==> a == b,
        (lex_order(a, b) == KeyOrder::Greater) <==> dictionary_before(b, a),
    decreases a.len(),
{
    crate::arena::lemma_lex_equal(a, b);
    crate::arena::lemma_lex_flip(a, b);
    crate::arena::lemma_lex_flip(b, a);
    lemma_lex_less_dictionary(a, b);
    lemma_lex_less_dictionary(b, a);
}

/// The first half of `law_lex_order`.
proof fn lemma_lex_less_dictionary(a: Seq<int>, b: Seq<int>)
    ensures
        (lex_order(a, b) == KeyOrder::Less) <==> dictionary_before(a, b),
    decreases a.len(),
{
    if a.len() == 0 {
        if b.len() > 0 {
            assert(a.take(0) =~= b.take(0));
        } else {
            assert forall|k: int|
                0 <= k <= a.len() && k <= b.len() && #[trigger] a.take(k) == b.take(k) implies !((k
                == a.len() && k < b.len()) || (k < a.len() && k < b.len() && a[k] < b[k])) by {}
        }
    } else if b.len() == 0 {
        assert forall|k: int|
            0 <= k <= a.len() && k <= b.len() && #[trigger] a.take(k) == b.take(k) implies !((k
            == a.len() && k < b.len()) || (k < a.len() && k < b.len() && a[k] < b[k])) by {}
    } else if a[0] != b[0] {
        assert(a.take(0) =~= b.take(0));
        assert forall|k: int|
            0 <= k <= a.len() && k <= b.len() && #[trigger] a.take(k) == b.take(k) && ((k
                == a.len() && k < b.len()) || (k < a.len() && k < b.len() && a[k] < b[k])) implies k
            == 0 by {
            if k > 0 {
                assert(a.take(k)[0] == b.take(k)[0]);
            }
        }
    } else {
        let a1 = a.skip(1);
        let b1 = b.skip(1);
        lemma_lex_less_dictionary(a1, b1);
        if dictionary_before(a1, b1) {
            let k = choose|k: int|
                0 <= k <= a1.len() && k <= b1.len() && #[trigger] a1.take(k) == b1.take(k) && ((k
                    == a1.len() && k < b1.len()) || (k < a1.len() && k < b1.len() && a1[k] < b1[k]));
            assert(a.take(k + 1) =~= seq![a[0]] + a1.take(k));
            assert(b.take(k + 1) =~= seq![b[0]] + b1.take(k));
            assert(a.take(k + 1) == b.take(k + 1));
        }
        if dictionary_before(a, b) {
            let k = choose|k: int|
                0 <= k <= a.len() && k <= b.len() && #[trigger] a.take(k) == b.take(k) && ((k
                    == a.len() && k < b.len()) || (k < a.len() && k < b.len() && a[k] < b[k]));
            assert(k > 0);
            assert(a1.take(k - 1) =~= a.take(k).skip(1));
            assert(b1.take(k - 1) =~= b.take(k).skip(1));
            assert(a1.take(k - 1) == b1.take(k - 1));
        }
    }
}

/// Strings are ordered by their UTF-8 bytes in dictionary order, as `Ord`
/// on `str` is documented to compare them, and are equal keys exactly when
/// they are equal strings.
pub proof fn law_str_keys(a: &str, b: &str)
    ensures
        (lex_order(a.key_seq(), b.key_seq()) == KeyOrder::Less) <==> dictionary_before(
            a.spec_bytes().map_values(|x: u8| x as int),
            b.spec_bytes().map_values(|x: u8| x as int),
        ),
        (lex_order(a.key_seq(), b.key_seq()) == KeyOrder::Equal) <==> a@ == b@,
{
    law_lex_order(a.key_seq(), b.key_seq());
    crate::arena::lemma_str_key_seq(a, b);
}

/// Byte strings are ordered byte by byte in dictionary order, as `Ord` on
/// `[u8]` compares them, and are equal keys exactly when they are equal.
pub proof fn law_bytes_keys(a: &[u8], b: &[u8])
    ensures
        (lex_order(a.key_seq(), b.key_seq()) == KeyOrder::Less) <==> dictionary_before(
            a@.map_values(|x: u8| x as int),
            b@.map_values(|x: u8| x as int),
        ),
        (lex_order(a.key_seq(), b.key_seq()) == KeyOrder::Equal) <==> a@ == b@,
{
    law_lex_order(a.key_seq(), b.key_seq());
    if a.key_seq() == b.key_seq() {
        assert forall|i: int| 0 <= i < a@.len() implies a@[i] == b@[i] by {
            assert(a.key_seq()[i] == a@[i] as int);
            assert(b.key_seq()[i] == b@[i] as int);
        }
        assert(a.key_seq().len() == a@.len());
        assert(a@ =~= b@);
    }
}

} // verus!
