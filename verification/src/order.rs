//! Three-way comparisons: of integers, and lexicographic of character
//! sequences (the order of std's `str::cmp`, as UTF-8 byte order and code
//! point order agree).
use vstd::prelude::*;
use std::cmp::Ordering;
use crate::text::{lemma_skip_step, skip_from};

verus! {

/// The order of two integers.
pub open spec fn int_order(a: int, b: int) -> Ordering {
    if a < b {
        Ordering::Less
    } else if a == b {
        Ordering::Equal
    } else {
        Ordering::Greater
    }
}

/// The order of two unsigned 64-bit integers.
pub open spec fn u64_order(a: u64, b: u64) -> Ordering {
    if a < b {
        Ordering::Less
    } else if a == b {
        Ordering::Equal
    } else {
        Ordering::Greater
    }
}

/// The order of two signed 64-bit integers.
pub open spec fn i64_order(a: i64, b: i64) -> Ordering {
    if a < b {
        Ordering::Less
    } else if a == b {
        Ordering::Equal
    } else {
        Ordering::Greater
    }
}

/// `o` with `Less` and `Greater` swapped (std's `Ordering::reverse`).
pub open spec fn flip(o: Ordering) -> Ordering {
    match o {
        Ordering::Less => Ordering::Greater,
        Ordering::Equal => Ordering::Equal,
        Ordering::Greater => Ordering::Less,
    }
}

/// `o` itself when `ascending`, else flipped.
pub open spec fn directed(o: Ordering, ascending: bool) -> Ordering {
    if ascending {
        o
    } else {
        flip(o)
    }
}

/// Lexicographic order of two character sequences.
pub open spec fn lex_order(a: Seq<char>, b: Seq<char>) -> Ordering
    decreases a.len(),
{
    if a.len() == 0 {
        if b.len() == 0 {
            Ordering::Equal
        } else {
            Ordering::Less
        }
    } else if b.len() == 0 {
        Ordering::Greater
    } else if a[0] < b[0] {
        Ordering::Less
    } else if a[0] > b[0] {
        Ordering::Greater
    } else {
        lex_order(a.drop_first(), b.drop_first())
    }
}

/// Swapping the arguments flips the lexicographic order.
pub proof fn lemma_lex_order_flip(a: Seq<char>, b: Seq<char>)
    ensures
        lex_order(b, a) == flip(lex_order(a, b)),
    decreases a.len(),
{
    if a.len() > 0 && b.len() > 0 && a[0] == b[0] {
        lemma_lex_order_flip(a.drop_first(), b.drop_first());
    }
}

/// A sequence is equal to itself in lexicographic order, and only to itself.
pub proof fn lemma_lex_order_equal(a: Seq<char>, b: Seq<char>)
    ensures
        (lex_order(a, b) == Ordering::Equal) <==> a == b,
    decreases a.len(),
{
    if a.len() == 0 || b.len() == 0 {
        if a.len() == 0 && b.len() == 0 {
            assert(a =~= b);
        }
    } else if a[0] == b[0] {
        lemma_lex_order_equal(a.drop_first(), b.drop_first());
        if a.drop_first() == b.drop_first() {
            assert(a =~= seq![a[0]] + a.drop_first());
            assert(b =~= seq![b[0]] + b.drop_first());
            assert(a =~= b);
        }
        if a == b {
            assert(a.drop_first() =~= b.drop_first());
        }
    } else {
        assert(a != b);
    }
}

/// Lexicographic "not greater" is transitive.
pub proof fn lemma_lex_order_trans(a: Seq<char>, b: Seq<char>, c: Seq<char>)
    requires
        lex_order(a, b) != Ordering::Greater,
        lex_order(b, c) != Ordering::Greater,
    ensures
        lex_order(a, c) != Ordering::Greater,
    decreases a.len(),
{
    if a.len() > 0 && b.len() > 0 && c.len() > 0 && a[0] == b[0] && b[0] == c[0] {
        lemma_lex_order_trans(a.drop_first(), b.drop_first(), c.drop_first());
    }
}

/// Lexicographic comparison of two character slices.
pub fn lex_compare(a: &[char], b: &[char]) -> (o: Ordering)
    ensures
        o == lex_order(a@, b@),
{
    let mut i: usize = 0;
    assert(skip_from(a@, 0) =~= a@);
    assert(skip_from(b@, 0) =~= b@);
    while i < a.len() && i < b.len()
        invariant
            i <= a@.len(),
            i <= b@.len(),
            lex_order(a@, b@) == lex_order(skip_from(a@, i), skip_from(b@, i)),
        decreases a.len() - i,
    {
        let x = a[i];
        let y = b[i];
        assert(skip_from(a@, i)[0] == x);
        assert(skip_from(b@, i)[0] == y);
        if x < y {
            return Ordering::Less;
        }
        if x > y {
            return Ordering::Greater;
        }
        proof {
            lemma_skip_step(a@, i);
            lemma_skip_step(b@, i);
        }
        i = i + 1;
    }
    if i < a.len() {
        Ordering::Greater
    } else if i < b.len() {
        Ordering::Less
    } else {
        Ordering::Equal
    }
}

/// Three-way comparison of two integers.
pub fn compare_u64(a: u64, b: u64) -> (o: Ordering)
    ensures
        o == u64_order(a, b),
{
    if a < b {
        Ordering::Less
    } else if a == b {
        Ordering::Equal
    } else {
        Ordering::Greater
    }
}

/// Three-way comparison of two signed integers.
pub fn compare_i64(a: i64, b: i64) -> (o: Ordering)
    ensures
        o == i64_order(a, b),
{
    if a < b {
        Ordering::Less
    } else if a == b {
        Ordering::Equal
    } else {
        Ordering::Greater
    }
}

/// std's `Ordering::reverse`.
pub fn flip_ordering(o: Ordering) -> (r: Ordering)
    ensures
        r == flip(o),
{
    match o {
        Ordering::Less => Ordering::Greater,
        Ordering::Equal => Ordering::Equal,
        Ordering::Greater => Ordering::Less,
    }
}

/// `a` comes strictly before `b` in lexicographic order.
pub open spec fn lex_less(a: Seq<char>, b: Seq<char>) -> bool {
    lex_order(a, b) == Ordering::Less
}

/// Whether `a` comes strictly before `b` in lexicographic order.
pub fn lex_lt(a: &[char], b: &[char]) -> (r: bool)
    ensures
        r == lex_less(a@, b@),
{
    match lex_compare(a, b) {
        Ordering::Less => true,
        _ => false,
    }
}

/// Of two different sequences one comes strictly first, and never both;
/// nothing comes before itself.
pub proof fn lemma_lex_less_total(a: Seq<char>, b: Seq<char>)
    ensures
        a != b ==> lex_less(a, b) || lex_less(b, a),
        !(lex_less(a, b) && lex_less(b, a)),
        !lex_less(a, a),
{
    lemma_lex_order_flip(a, b);
    lemma_lex_order_equal(a, b);
    lemma_lex_order_equal(a, a);
}

/// Coming strictly first is transitive.
pub proof fn lemma_lex_less_trans(a: Seq<char>, b: Seq<char>, c: Seq<char>)
    requires
        lex_less(a, b),
        lex_less(b, c),
    ensures
        lex_less(a, c),
{
    lemma_lex_order_trans(a, b, c);
    lemma_lex_order_equal(a, c);
    lemma_lex_less_total(a, b);
    if a == c {
        assert(lex_less(b, a));
    }
}

} // verus!
