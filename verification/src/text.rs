//! Character-level string helpers shared by the rest of the library.
//!
//! Strings are modelled by their view, a `Seq<char>`; most helpers work on
//! `&[char]` after one conversion with [`chars_of`].
use vstd::prelude::*;

verus! {

/// `s` without its first `i` characters.
pub open spec fn skip_from(s: Seq<char>, i: usize) -> Seq<char> {
    s.skip(i as int)
}

/// Skipping one more character drops the first of the rest.
pub proof fn lemma_skip_step(s: Seq<char>, i: usize)
    requires
        i < s.len(),
    ensures
        forall|j: usize| j == i + 1 ==> #[trigger] skip_from(s, j) == skip_from(s, i).drop_first(),
{
    assert forall|j: usize| j == i + 1 implies #[trigger] skip_from(s, j) == skip_from(s, i).drop_first() by {
        assert(skip_from(s, j) =~= skip_from(s, i).drop_first());
    }
}

/// `s` without its first `i` pieces.
pub open spec fn skip_parts(s: Seq<Seq<char>>, i: usize) -> Seq<Seq<char>> {
    s.skip(i as int)
}

/// Skipping one more piece drops the first of the rest.
pub proof fn lemma_skip_parts_step(s: Seq<Seq<char>>, i: usize)
    requires
        i < s.len(),
    ensures
        forall|j: usize| j == i + 1 ==> #[trigger] skip_parts(s, j) == skip_parts(s, i).drop_first(),
{
    assert forall|j: usize| j == i + 1 implies #[trigger] skip_parts(s, j) == skip_parts(s, i).drop_first() by {
        assert(skip_parts(s, j) =~= skip_parts(s, i).drop_first());
    }
}

/// The first remaining piece after skipping `i` is the view of the `i`-th.
pub proof fn lemma_views_skip_first(v: Seq<Vec<char>>, i: usize)
    requires
        i < v.len(),
    ensures
        skip_parts(views(v), i)[0] == v[i as int]@,
        skip_parts(views(v), i).len() > 0,
{
}

/// `p` is a prefix of `s`.
pub open spec fn is_prefix(p: Seq<char>, s: Seq<char>) -> bool {
    p.len() <= s.len() && s.subrange(0, p.len() as int) == p
}

/// `p` is a suffix of `s`.
pub open spec fn is_suffix(p: Seq<char>, s: Seq<char>) -> bool {
    p.len() <= s.len() && s.subrange(s.len() - p.len(), s.len() as int) == p
}

/// `p` occurs in `s` starting at index `i`.
pub open spec fn occurs_at(s: Seq<char>, p: Seq<char>, i: int) -> bool {
    0 <= i && i + p.len() <= s.len() && s.subrange(i, i + p.len()) == p
}

/// `p` occurs somewhere in `s`.
pub open spec fn contains_seq(s: Seq<char>, p: Seq<char>) -> bool {
    exists|i: int| occurs_at(s, p, i)
}

/// The characters of `s`, in order.
pub fn chars_of(s: &str) -> (v: Vec<char>)
    ensures
        v@ == s@,
{
    let n = s.unicode_len();
    let mut v: Vec<char> = Vec::new();
    let mut i: usize = 0;
    while i < n
        invariant
            n == s@.len(),
            i <= n,
            v@ == s@.subrange(0, i as int),
        decreases n - i,
    {
        let c = s.get_char(i);
        v.push(c);
        i = i + 1;
        assert(v@ =~= s@.subrange(0, i as int));
    }
    assert(v@ =~= s@);
    v
}

/// Builds a `String` from a character slice (std's `FromIterator<char>`).
#[verifier::external_body]
pub(crate) fn string_of(v: &[char]) -> (s: String)
    ensures
        s@ == v@,
{
    v.iter().collect()
}

/// Whether `p` is a prefix of `s`.
pub fn has_prefix(s: &[char], p: &[char]) -> (b: bool)
    ensures
        b == is_prefix(p@, s@),
{
    if p.len() > s.len() {
        return false;
    }
    let mut i: usize = 0;
    while i < p.len()
        invariant
            p.len() <= s.len(),
            i <= p.len(),
            forall|k: int| 0 <= k < i ==> s@[k] == p@[k],
        decreases p.len() - i,
    {
        if s[i] != p[i] {
            assert(s@.subrange(0, p@.len() as int)[i as int] != p@[i as int]);
            return false;
        }
        i = i + 1;
    }
    assert(s@.subrange(0, p@.len() as int) =~= p@);
    true
}

/// Whether `p` occurs in `s` at index `at`.
pub fn matches_at(s: &[char], p: &[char], at: usize) -> (b: bool)
    ensures
        b == occurs_at(s@, p@, at as int),
{
    if at > s.len() || p.len() > s.len() - at {
        return false;
    }
    let mut i: usize = 0;
    while i < p.len()
        invariant
            at + p.len() <= s.len(),
            i <= p.len(),
            forall|k: int| 0 <= k < i ==> s@[at + k] == p@[k],
        decreases p.len() - i,
    {
        if s[at + i] != p[i] {
            assert(s@.subrange(at as int, at + p@.len())[i as int] != p@[i as int]);
            return false;
        }
        i = i + 1;
    }
    assert(s@.subrange(at as int, at + p@.len()) =~= p@);
    true
}

/// Whether `p` is a suffix of `s`.
pub fn has_suffix(s: &[char], p: &[char]) -> (b: bool)
    ensures
        b == is_suffix(p@, s@),
{
    if p.len() > s.len() {
        return false;
    }
    matches_at(s, p, s.len() - p.len())
}

/// Index of the first occurrence of `p` in `s` at or after `from`.
pub fn find_from(s: &[char], p: &[char], from: usize) -> (r: Option<usize>)
    ensures
        match r {
            Some(i) => from <= i && occurs_at(s@, p@, i as int)
                && forall|j: int| from <= j < i ==> !occurs_at(s@, p@, j),
            None => forall|j: int| from <= j ==> !occurs_at(s@, p@, j),
        },
{
    if p.len() > s.len() || from > s.len() - p.len() {
        return None;
    }
    let last = s.len() - p.len();
    let mut i: usize = from;
    loop
        invariant
            from <= i <= last,
            last == s.len() - p.len(),
            forall|j: int| from <= j < i ==> !occurs_at(s@, p@, j),
        decreases last - i,
    {
        if matches_at(s, p, i) {
            return Some(i);
        }
        if i == last {
            return None;
        }
        i = i + 1;
    }
}

/// Whether `p` occurs anywhere in `s`.
pub fn contains_slice(s: &[char], p: &[char]) -> (b: bool)
    ensures
        b == contains_seq(s@, p@),
{
    match find_from(s, p, 0) {
        Some(i) => {
            assert(occurs_at(s@, p@, i as int));
            true
        },
        None => {
            assert forall|j: int| !occurs_at(s@, p@, j) by {
                if j < 0 {
                }
            }
            false
        },
    }
}

/// Whether `s` starts with `p` (both given as strings).
pub fn str_starts_with(s: &str, p: &str) -> (b: bool)
    ensures
        b == is_prefix(p@, s@),
{
    let sv = chars_of(s);
    let pv = chars_of(p);
    has_prefix(sv.as_slice(), pv.as_slice())
}

/// Whether `s` ends with `p` (both given as strings).
pub fn str_ends_with(s: &str, p: &str) -> (b: bool)
    ensures
        b == is_suffix(p@, s@),
{
    let sv = chars_of(s);
    let pv = chars_of(p);
    has_suffix(sv.as_slice(), pv.as_slice())
}

/// Whether `p` occurs in `s` (both given as strings).
pub fn str_contains(s: &str, p: &str) -> (b: bool)
    ensures
        b == contains_seq(s@, p@),
{
    let sv = chars_of(s);
    let pv = chars_of(p);
    contains_slice(sv.as_slice(), pv.as_slice())
}

/// Equality of two strings by their characters.
pub fn str_eq(a: &str, b: &str) -> (r: bool)
    ensures
        r == (a@ == b@),
{
    let av = chars_of(a);
    let bv = chars_of(b);
    if av.len() != bv.len() {
        return false;
    }
    let r = has_prefix(av.as_slice(), bv.as_slice());
    assert(av@.subrange(0, bv@.len() as int) =~= av@);
    r
}

} // verus!

verus! {

/// Splitting at every character of `ds`, with `cur` the piece being read and
/// `done` the pieces already closed (the semantics of std's `str::split`
/// with a set of delimiter characters).
pub open spec fn split_acc(s: Seq<char>, ds: Seq<char>, cur: Seq<char>, done: Seq<Seq<char>>) -> Seq<Seq<char>>
    decreases s.len(),
{
    if s.len() == 0 {
        done.push(cur)
    } else if ds.contains(s[0]) {
        split_acc(s.drop_first(), ds, Seq::empty(), done.push(cur))
    } else {
        split_acc(s.drop_first(), ds, cur.push(s[0]), done)
    }
}

/// The pieces of `s` between delimiters from `ds`; `n` delimiters give
/// `n + 1` pieces, empty ones included.
pub open spec fn split_any(s: Seq<char>, ds: Seq<char>) -> Seq<Seq<char>> {
    split_acc(s, ds, Seq::empty(), Seq::empty())
}

/// Like `split_acc`, but at most `n` pieces: once `n - 1` are closed the
/// rest of the string goes into the last one (std's `str::splitn`).
pub open spec fn splitn_acc(s: Seq<char>, d: char, n: nat, cur: Seq<char>, done: Seq<Seq<char>>) -> Seq<Seq<char>>
    decreases s.len(),
{
    if s.len() == 0 {
        done.push(cur)
    } else if s[0] == d && done.len() + 1 < n {
        splitn_acc(s.drop_first(), d, n, Seq::empty(), done.push(cur))
    } else {
        splitn_acc(s.drop_first(), d, n, cur.push(s[0]), done)
    }
}

/// At most `n` pieces of `s` split at `d`.
pub open spec fn splitn_spec(s: Seq<char>, d: char, n: nat) -> Seq<Seq<char>> {
    splitn_acc(s, d, n, Seq::empty(), Seq::empty())
}

/// The views of a vector of character vectors.
pub open spec fn views(v: Seq<Vec<char>>) -> Seq<Seq<char>> {
    v.map_values(|x: Vec<char>| x@)
}

/// Whether `c` is one of the characters of `ds`.
pub fn is_one_of(c: char, ds: &[char]) -> (b: bool)
    ensures
        b == ds@.contains(c),
{
    let mut i: usize = 0;
    while i < ds.len()
        invariant
            i <= ds@.len(),
            forall|k: int| 0 <= k < i ==> ds@[k] != c,
        decreases ds.len() - i,
    {
        if ds[i] == c {
            assert(ds@[i as int] == c);
            return true;
        }
        i = i + 1;
    }
    false
}

/// `s` split at every character of `ds`.
pub fn split_chars(s: &[char], ds: &[char]) -> (parts: Vec<Vec<char>>)
    ensures
        views(parts@) == split_any(s@, ds@),
{
    let mut done: Vec<Vec<char>> = Vec::new();
    let mut cur: Vec<char> = Vec::new();
    let mut i: usize = 0;
    assert(s@.skip(0) =~= s@);
    assert(views(done@) =~= Seq::<Seq<char>>::empty());
    assert(cur@ =~= Seq::<char>::empty());
    while i < s.len()
        invariant
            i <= s@.len(),
            split_any(s@, ds@) == split_acc(s@.skip(i as int), ds@, cur@, views(done@)),
        decreases s.len() - i,
    {
        let c = s[i];
        assert(s@.skip(i as int).drop_first() =~= s@.skip(i + 1));
        if is_one_of(c, ds) {
            let ghost old_done = done@;
            let finished = cur;
            done.push(finished);
            cur = Vec::new();
            assert(views(done@) =~= views(old_done).push(finished@));
            assert(cur@ =~= Seq::<char>::empty());
        } else {
            cur.push(c);
        }
        i = i + 1;
    }
    let ghost old_done = done@;
    let finished = cur;
    done.push(finished);
    assert(views(done@) =~= views(old_done).push(finished@));
    assert(s@.skip(i as int) =~= Seq::<char>::empty());
    done
}

/// `s` split at `d` into at most `n` pieces.
pub fn splitn_char(s: &[char], d: char, n: usize) -> (parts: Vec<Vec<char>>)
    ensures
        views(parts@) == splitn_spec(s@, d, n as nat),
{
    let mut done: Vec<Vec<char>> = Vec::new();
    let mut cur: Vec<char> = Vec::new();
    let mut i: usize = 0;
    assert(s@.skip(0) =~= s@);
    assert(views(done@) =~= Seq::<Seq<char>>::empty());
    assert(cur@ =~= Seq::<char>::empty());
    while i < s.len()
        invariant
            i <= s@.len(),
            done@.len() <= i,
            splitn_spec(s@, d, n as nat) == splitn_acc(s@.skip(i as int), d, n as nat, cur@, views(done@)),
        decreases s.len() - i,
    {
        let c = s[i];
        assert(s@.skip(i as int).drop_first() =~= s@.skip(i + 1));
        if c == d && done.len() + 1 < n {
            let ghost old_done = done@;
            let finished = cur;
            done.push(finished);
            cur = Vec::new();
            assert(views(done@) =~= views(old_done).push(finished@));
            assert(cur@ =~= Seq::<char>::empty());
        } else {
            cur.push(c);
        }
        i = i + 1;
    }
    let ghost old_done = done@;
    let finished = cur;
    done.push(finished);
    assert(views(done@) =~= views(old_done).push(finished@));
    assert(s@.skip(i as int) =~= Seq::<char>::empty());
    done
}

/// Whether `c` is an ASCII decimal digit.
pub open spec fn is_digit(c: char) -> bool {
    '0' <= c && c <= '9'
}

/// Value of an ASCII digit.
pub open spec fn digit_value(c: char) -> nat {
    ((c as u32) - ('0' as u32)) as nat
}

/// Whether every character of `s` is a digit.
pub open spec fn all_digits(s: Seq<char>) -> bool {
    forall|i: int| 0 <= i < s.len() ==> is_digit(#[trigger] s[i])
}

/// Decimal value of a string of digits.
pub open spec fn digits_value(s: Seq<char>) -> nat
    decreases s.len(),
{
    if s.len() == 0 {
        0
    } else {
        digits_value(s.drop_last()) * 10 + digit_value(s.last())
    }
}

/// What std's `str::parse::<u64>` gives: an optional `+` then one or more
/// digits whose value fits in 64 bits.
pub open spec fn parse_u64_spec(s: Seq<char>) -> Option<u64> {
    let d = if s.len() > 0 && s[0] == '+' { s.drop_first() } else { s };
    if d.len() > 0 && all_digits(d) && digits_value(d) <= u64::MAX {
        Some(digits_value(d) as u64)
    } else {
        None
    }
}

/// A longer digit string has at least the value of its prefix.
pub proof fn lemma_digits_value_prefix(s: Seq<char>, i: int)
    requires
        0 <= i <= s.len(),
    ensures
        digits_value(s.take(i)) <= digits_value(s),
    decreases s.len() - i,
{
    if i < s.len() {
        lemma_digits_value_prefix(s, i + 1);
        assert(s.take(i + 1).drop_last() =~= s.take(i));
    }
    assert(s.take(s.len() as int) =~= s);
}

/// Value of the digits of `d` (all digits), or `None` past `u64::MAX`.
fn digits_to_u64(d: &[char], start: usize) -> (r: Option<u64>)
    requires
        start <= d@.len(),
        all_digits(d@.skip(start as int)),
    ensures
        r == (if digits_value(d@.skip(start as int)) <= u64::MAX {
            Some(digits_value(d@.skip(start as int)) as u64)
        } else {
            None
        }),
{
    let ghost t = d@.skip(start as int);
    let mut v: u64 = 0;
    let mut i: usize = start;
    while i < d.len()
        invariant
            start <= i <= d@.len(),
            t == d@.skip(start as int),
            all_digits(t),
            v as nat == digits_value(t.take(i - start)),
        decreases d.len() - i,
    {
        let c = d[i];
        assert(t[i - start] == c);
        let dv: u64 = ((c as u32) - ('0' as u32)) as u64;
        assert(t.take(i - start + 1).drop_last() =~= t.take(i - start));
        if v > (u64::MAX - dv) / 10 {
            proof {
                lemma_digits_value_prefix(t, i - start + 1);
            }
            return None;
        }
        v = v * 10 + dv;
        i = i + 1;
    }
    assert(t.take(i - start) =~= t);
    Some(v)
}

/// std's `str::parse::<u64>` on a character slice.
pub fn parse_u64(s: &[char]) -> (r: Option<u64>)
    ensures
        r == parse_u64_spec(s@),
{
    let start: usize = if s.len() > 0 && s[0] == '+' { 1 } else { 0 };
    let ghost d = if s@.len() > 0 && s@[0] == '+' { s@.drop_first() } else { s@ };
    assert(d =~= s@.skip(start as int));
    if start >= s.len() {
        return None;
    }
    let mut i: usize = start;
    while i < s.len()
        invariant
            start <= i <= s@.len(),
            start < s@.len(),
            d == s@.skip(start as int),
            d == (if s@.len() > 0 && s@[0] == '+' { s@.drop_first() } else { s@ }),
            forall|k: int| start <= k < i ==> is_digit(s@[k]),
        decreases s.len() - i,
    {
        let c = s[i];
        if !(c >= '0' && c <= '9') {
            assert(!is_digit(d[i - start]));
            assert(!all_digits(d));
            assert(d.len() > 0);
            return None;
        }
        i = i + 1;
    }
    assert(all_digits(d));
    digits_to_u64(s, start)
}

/// Lower-casing of ASCII letters; other characters stay.
pub open spec fn ascii_lower(c: char) -> char {
    if 'A' <= c && c <= 'Z' {
        ((c as u32) + 32) as char
    } else {
        c
    }
}

/// `s` with ASCII letters lower-cased (std's `to_ascii_lowercase`).
pub open spec fn ascii_lower_seq(s: Seq<char>) -> Seq<char> {
    s.map_values(|c: char| ascii_lower(c))
}

/// Lower-cases one ASCII letter.
pub fn lower_char(c: char) -> (r: char)
    ensures
        r == ascii_lower(c),
{
    if c >= 'A' && c <= 'Z' {
        let u: u32 = (c as u32) + 32;
        assert(0x61 <= u <= 0x7a);
        let b: u8 = u as u8;
        b as char
    } else {
        c
    }
}

/// `s` with its ASCII letters lower-cased.
pub fn lower_chars(s: &[char]) -> (r: Vec<char>)
    ensures
        r@ == ascii_lower_seq(s@),
{
    let mut r: Vec<char> = Vec::new();
    let mut i: usize = 0;
    while i < s.len()
        invariant
            i <= s@.len(),
            r@ == ascii_lower_seq(s@.take(i as int)),
        decreases s.len() - i,
    {
        r.push(lower_char(s[i]));
        i = i + 1;
        assert(r@ =~= ascii_lower_seq(s@.take(i as int)));
    }
    assert(s@.take(s@.len() as int) =~= s@);
    r
}

} // verus!

verus! {

/// Name for what std's `str::to_lowercase` returns (full Unicode
/// lower-casing).
pub uninterp spec fn unicode_lowercase(s: Seq<char>) -> Seq<char>;

/// std's `str::to_lowercase`.
#[verifier::external_body]
pub(crate) fn to_lowercase(s: &str) -> (r: String)
    ensures
        r@ == unicode_lowercase(s@),
{
    s.to_lowercase()
}

} // verus!

verus! {

/// `s` with every non-overlapping occurrence of `pat`, scanning left to
/// right, replaced by `rep` (std's `str::replace`, for a non-empty `pat`).
pub open spec fn replace_spec(s: Seq<char>, pat: Seq<char>, rep: Seq<char>) -> Seq<char>
    recommends
        pat.len() > 0,
    decreases s.len(),
{
    if s.len() == 0 || pat.len() == 0 {
        s
    } else if is_prefix(pat, s) {
        rep + replace_spec(s.skip(pat.len() as int), pat, rep)
    } else {
        seq![s[0]] + replace_spec(s.drop_first(), pat, rep)
    }
}

/// Replaces every occurrence of `pat` in `s` by `rep`.
pub fn replace_all(s: &[char], pat: &[char], rep: &[char]) -> (r: Vec<char>)
    requires
        pat@.len() > 0,
    ensures
        r@ == replace_spec(s@, pat@, rep@),
{
    let mut out: Vec<char> = Vec::new();
    let mut i: usize = 0;
    assert(s@.skip(0) =~= s@);
    while i < s.len()
        invariant
            i <= s@.len(),
            pat@.len() > 0,
            out@ + replace_spec(s@.skip(i as int), pat@, rep@) == replace_spec(s@, pat@, rep@),
        decreases s.len() - i,
    {
        let ghost rest = s@.skip(i as int);
        if matches_at(s, pat, i) {
            assert(rest.subrange(0, pat@.len() as int) =~= s@.subrange(i as int, i + pat@.len()));
            assert(is_prefix(pat@, rest));
            assert(rest.skip(pat@.len() as int) =~= s@.skip(i + pat@.len()));
            let ghost before = out@;
            let mut k: usize = 0;
            while k < rep.len()
                invariant
                    k <= rep@.len(),
                    out@ == before + rep@.take(k as int),
                decreases rep.len() - k,
            {
                out.push(rep[k]);
                k = k + 1;
                assert(out@ =~= before + rep@.take(k as int));
            }
            assert(rep@.take(rep@.len() as int) =~= rep@);
            assert(out@ + replace_spec(s@.skip(i + pat@.len()), pat@, rep@) =~= before + (rep@
                + replace_spec(rest.skip(pat@.len() as int), pat@, rep@)));
            i = i + pat.len();
        } else {
            assert(!is_prefix(pat@, rest)) by {
                if is_prefix(pat@, rest) {
                    assert(rest.subrange(0, pat@.len() as int) =~= s@.subrange(
                        i as int,
                        i + pat@.len(),
                    ));
                }
            }
            assert(rest.drop_first() =~= s@.skip(i + 1));
            let ghost before = out@;
            out.push(s[i]);
            assert(out@ + replace_spec(s@.skip(i + 1), pat@, rep@) =~= before + (seq![rest[0]]
                + replace_spec(rest.drop_first(), pat@, rep@)));
            i = i + 1;
        }
    }
    assert(s@.skip(i as int) =~= Seq::<char>::empty());
    assert(out@ + Seq::<char>::empty() =~= out@);
    out
}

/// Whether `c` has Unicode's White_Space property (std's
/// `char::is_whitespace`).
pub open spec fn is_white(c: char) -> bool {
    let u = c as u32;
    (0x9 <= u && u <= 0xd) || u == 0x20 || u == 0x85 || u == 0xa0 || u == 0x1680 || (0x2000 <= u
        && u <= 0x200a) || u == 0x2028 || u == 0x2029 || u == 0x202f || u == 0x205f || u == 0x3000
}

/// std's `char::is_whitespace`.
pub fn is_white_char(c: char) -> (b: bool)
    ensures
        b == is_white(c),
{
    let u = c as u32;
    (0x9 <= u && u <= 0xd) || u == 0x20 || u == 0x85 || u == 0xa0 || u == 0x1680 || (0x2000 <= u
        && u <= 0x200a) || u == 0x2028 || u == 0x2029 || u == 0x202f || u == 0x205f || u == 0x3000
}

/// Number of leading white-space characters of `s`.
pub open spec fn lead_white(s: Seq<char>) -> nat
    decreases s.len(),
{
    if s.len() > 0 && is_white(s[0]) {
        1 + lead_white(s.drop_first())
    } else {
        0
    }
}

/// Number of trailing white-space characters of `s`.
pub open spec fn trail_white(s: Seq<char>) -> nat
    decreases s.len(),
{
    if s.len() > 0 && is_white(s.last()) {
        1 + trail_white(s.drop_last())
    } else {
        0
    }
}

/// `s` without leading white space (std's `str::trim_start`).
pub open spec fn trim_start_spec(s: Seq<char>) -> Seq<char> {
    s.skip(lead_white(s) as int)
}

/// `s` without trailing white space (std's `str::trim_end`).
pub open spec fn trim_end_spec(s: Seq<char>) -> Seq<char> {
    s.take(s.len() - trail_white(s))
}

/// `s` without leading and trailing white space (std's `str::trim`).
pub open spec fn trim_spec(s: Seq<char>) -> Seq<char> {
    trim_end_spec(trim_start_spec(s))
}

proof fn lemma_lead_white_bound(s: Seq<char>)
    ensures
        lead_white(s) <= s.len(),
    decreases s.len(),
{
    if s.len() > 0 && is_white(s[0]) {
        lemma_lead_white_bound(s.drop_first());
    }
}

proof fn lemma_trail_white_bound(s: Seq<char>)
    ensures
        trail_white(s) <= s.len(),
    decreases s.len(),
{
    if s.len() > 0 && is_white(s.last()) {
        lemma_trail_white_bound(s.drop_last());
    }
}

/// `s` without leading and trailing white space.
pub fn trim_chars(s: &[char]) -> (r: Vec<char>)
    ensures
        r@ == trim_spec(s@),
{
    let mut a: usize = 0;
    proof {
        lemma_lead_white_bound(s@);
    }
    assert(s@.skip(0) =~= s@);
    while a < s.len() && is_white_char(s[a])
        invariant
            a <= s@.len(),
            lead_white(s@) == a + lead_white(s@.skip(a as int)),
        decreases s.len() - a,
    {
        assert(s@.skip(a as int).drop_first() =~= s@.skip(a + 1));
        a = a + 1;
    }
    let ghost t = s@.skip(a as int);
    assert(lead_white(t) == 0);
    assert(trim_start_spec(s@) =~= t);
    let mut b: usize = s.len();
    assert(t.take(t.len() as int) =~= t);
    proof {
        lemma_trail_white_bound(t);
    }
    while b > a && is_white_char(s[b - 1])
        invariant
            a <= b <= s@.len(),
            t == s@.skip(a as int),
            trail_white(t) == (s@.len() - b) + trail_white(t.take(b - a)),
        decreases b,
    {
        let ghost u = t.take(b - a);
        assert(u.last() == s@[b - 1]);
        assert(u.drop_last() =~= t.take(b - 1 - a));
        b = b - 1;
    }
    let ghost u = t.take(b - a);
    assert(trail_white(u) == 0);
    let mut r: Vec<char> = Vec::new();
    let mut k: usize = a;
    while k < b
        invariant
            a <= k <= b,
            b <= s@.len(),
            r@ == s@.subrange(a as int, k as int),
        decreases b - k,
    {
        r.push(s[k]);
        k = k + 1;
        assert(r@ =~= s@.subrange(a as int, k as int));
    }
    assert(r@ =~= trim_spec(s@));
    r
}

} // verus!

verus! {

/// What std's `str::parse::<u32>` gives.
pub open spec fn parse_u32_spec(s: Seq<char>) -> Option<u32> {
    match parse_u64_spec(s) {
        Some(v) => if v <= u32::MAX {
            Some(v as u32)
        } else {
            None
        },
        None => None,
    }
}

/// What std's `str::parse::<i32>` gives: an optional sign, then one or
/// more digits whose signed value fits in 32 bits.
pub open spec fn parse_i32_spec(s: Seq<char>) -> Option<i32> {
    if s.len() > 0 && s[0] == '-' {
        let d = s.drop_first();
        if d.len() > 0 && all_digits(d) && digits_value(d) <= 0x8000_0000 {
            Some((0 - digits_value(d)) as i32)
        } else {
            None
        }
    } else {
        match parse_u64_spec(s) {
            Some(v) => if v <= 0x7fff_ffff {
                Some(v as i32)
            } else {
                None
            },
            None => None,
        }
    }
}

/// std's `str::parse::<u32>` on a character slice.
pub fn parse_u32(s: &[char]) -> (r: Option<u32>)
    ensures
        r == parse_u32_spec(s@),
{
    match parse_u64(s) {
        Some(v) => if v <= 0xffff_ffff {
            Some(v as u32)
        } else {
            None
        },
        None => None,
    }
}

/// std's `str::parse::<i32>` on a character slice.
pub fn parse_i32(s: &[char]) -> (r: Option<i32>)
    ensures
        r == parse_i32_spec(s@),
{
    if s.len() > 0 && s[0] == '-' {
        let ghost d = s@.drop_first();
        assert(d =~= s@.skip(1));
        if s.len() == 1 {
            return None;
        }
        let mut i: usize = 1;
        while i < s.len()
            invariant
                1 <= i <= s@.len(),
                d == s@.skip(1),
                forall|k: int| 1 <= k < i ==> is_digit(s@[k]),
            decreases s.len() - i,
        {
            let c = s[i];
            if !(c >= '0' && c <= '9') {
                assert(!is_digit(d[i - 1]));
                assert(!all_digits(d));
                return None;
            }
            i = i + 1;
        }
        assert(all_digits(d));
        match digits_to_u64(s, 1) {
            Some(v) => if v <= 0x8000_0000 {
                if v == 0x8000_0000 {
                    Some(-2147483647i32 - 1)
                } else {
                    let w: i32 = v as i32;
                    Some(0 - w)
                }
            } else {
                None
            },
            None => None,
        }
    } else {
        match parse_u64(s) {
            Some(v) => if v <= 0x7fff_ffff {
                Some(v as i32)
            } else {
                None
            },
            None => None,
        }
    }
}

} // verus!

verus! {

/// Every split has at least one piece.
pub proof fn lemma_split_acc_len(s: Seq<char>, ds: Seq<char>, cur: Seq<char>, done: Seq<Seq<char>>)
    ensures
        split_acc(s, ds, cur, done).len() >= done.len() + 1,
    decreases s.len(),
{
    if s.len() > 0 {
        if ds.contains(s[0]) {
            lemma_split_acc_len(s.drop_first(), ds, Seq::empty(), done.push(cur));
        } else {
            lemma_split_acc_len(s.drop_first(), ds, cur.push(s[0]), done);
        }
    }
}

/// Every split has at least one piece.
pub proof fn lemma_split_any_len(s: Seq<char>, ds: Seq<char>)
    ensures
        split_any(s, ds).len() >= 1,
{
    lemma_split_acc_len(s, ds, Seq::empty(), Seq::empty());
}

/// The pieces already closed stay as they are.
pub proof fn lemma_split_acc_keeps(s: Seq<char>, ds: Seq<char>, cur: Seq<char>, done: Seq<Seq<char>>, k: int)
    requires
        0 <= k < done.len(),
    ensures
        split_acc(s, ds, cur, done).len() > k,
        split_acc(s, ds, cur, done)[k] == done[k],
    decreases s.len(),
{
    if s.len() == 0 {
    } else if ds.contains(s[0]) {
        lemma_split_acc_keeps(s.drop_first(), ds, Seq::empty(), done.push(cur), k);
    } else {
        lemma_split_acc_keeps(s.drop_first(), ds, cur.push(s[0]), done, k);
    }
}

/// The first piece holds no delimiter.
pub proof fn lemma_split_acc_first_clean(s: Seq<char>, ds: Seq<char>, cur: Seq<char>)
    requires
        forall|i: int| 0 <= i < cur.len() ==> !ds.contains(#[trigger] cur[i]),
    ensures
        split_acc(s, ds, cur, Seq::empty()).len() >= 1,
        forall|i: int|
            0 <= i < split_acc(s, ds, cur, Seq::empty())[0].len() ==> !ds.contains(
                #[trigger] split_acc(s, ds, cur, Seq::empty())[0][i],
            ),
    decreases s.len(),
{
    lemma_split_acc_len(s, ds, cur, Seq::empty());
    if s.len() == 0 {
    } else if ds.contains(s[0]) {
        lemma_split_acc_keeps(s.drop_first(), ds, Seq::empty(), Seq::empty().push(cur), 0);
    } else {
        let c2 = cur.push(s[0]);
        assert forall|i: int| 0 <= i < c2.len() implies !ds.contains(#[trigger] c2[i]) by {
            if i < cur.len() {
                assert(c2[i] == cur[i]);
            }
        }
        lemma_split_acc_first_clean(s.drop_first(), ds, c2);
    }
}

/// A string without delimiters is one piece.
pub proof fn lemma_split_acc_clean(s: Seq<char>, ds: Seq<char>, cur: Seq<char>)
    requires
        forall|i: int| 0 <= i < s.len() ==> !ds.contains(#[trigger] s[i]),
    ensures
        split_acc(s, ds, cur, Seq::empty()) == seq![cur + s],
    decreases s.len(),
{
    if s.len() == 0 {
        assert(cur + s =~= cur);
        assert(Seq::<Seq<char>>::empty().push(cur) =~= seq![cur]);
    } else {
        assert(!ds.contains(s[0]));
        let rest = s.drop_first();
        assert forall|i: int| 0 <= i < rest.len() implies !ds.contains(#[trigger] rest[i]) by {
            assert(rest[i] == s[i + 1]);
        }
        lemma_split_acc_clean(rest, ds, cur.push(s[0]));
        assert(cur.push(s[0]) + rest =~= cur + s);
    }
}

/// The first piece of a split, split again, is itself.
pub proof fn lemma_split_first_idempotent(s: Seq<char>, ds: Seq<char>)
    ensures
        split_any(s, ds).len() >= 1,
        split_any(split_any(s, ds)[0], ds) == seq![split_any(s, ds)[0]],
        forall|i: int| 0 <= i < split_any(s, ds)[0].len() ==> !ds.contains(#[trigger] split_any(s, ds)[0][i]),
{
    lemma_split_acc_first_clean(s, ds, Seq::empty());
    let p = split_any(s, ds)[0];
    lemma_split_acc_clean(p, ds, Seq::empty());
    assert(Seq::<char>::empty() + p =~= p);
}

/// Character-wise equality of two slices.
pub fn slice_eq(a: &[char], b: &[char]) -> (r: bool)
    ensures
        r == (a@ == b@),
{
    if a.len() != b.len() {
        return false;
    }
    let r = has_prefix(a, b);
    assert(a@.subrange(0, b@.len() as int) =~= a@);
    r
}

/// Appends the characters of `s`.
pub fn extend_chars(out: &mut Vec<char>, s: &[char])
    ensures
        final(out)@ == old(out)@ + s@,
{
    let mut i: usize = 0;
    while i < s.len()
        invariant
            i <= s@.len(),
            out@ == old(out)@ + s@.take(i as int),
        decreases s.len() - i,
    {
        out.push(s[i]);
        i = i + 1;
        assert(out@ =~= old(out)@ + s@.take(i as int));
    }
    assert(s@.take(s@.len() as int) =~= s@);
}

/// The concatenation of two character slices.
pub fn concat_chars(a: &[char], b: &[char]) -> (r: Vec<char>)
    ensures
        r@ == a@ + b@,
{
    let mut out: Vec<char> = Vec::new();
    extend_chars(&mut out, a);
    assert(out@ =~= a@);
    extend_chars(&mut out, b);
    out
}

/// Appends the characters of a string.
pub fn push_str_chars(out: &mut Vec<char>, s: &str)
    ensures
        final(out)@ == old(out)@ + s@,
{
    let v = chars_of(s);
    extend_chars(out, v.as_slice());
}

/// The value stored under the first entry with key `k`.
pub open spec fn assoc_find<T>(m: Seq<(String, T)>, k: Seq<char>) -> Option<T>
    decreases m.len(),
{
    if m.len() == 0 {
        None
    } else if m[0].0@ == k {
        Some(m[0].1)
    } else {
        assoc_find(m.drop_first(), k)
    }
}

/// Index of the first entry with key `k`.
pub fn assoc_index<T>(m: &Vec<(String, T)>, k: &[char]) -> (r: Option<usize>)
    ensures
        match r {
            Some(i) => i < m@.len() && assoc_find(m@, k@) == Some(m@[i as int].1),
            None => assoc_find(m@, k@).is_none(),
        },
{
    let mut i: usize = 0;
    assert(m@.skip(0) =~= m@);
    while i < m.len()
        invariant
            i <= m@.len(),
            assoc_find(m@, k@) == assoc_find(m@.skip(i as int), k@),
        decreases m.len() - i,
    {
        let key = chars_of(m[i].0.as_str());
        assert(m@.skip(i as int)[0] == m@[i as int]);
        if slice_eq(key.as_slice(), k) {
            return Some(i);
        }
        assert(m@.skip(i as int).drop_first() =~= m@.skip(i + 1));
        i = i + 1;
    }
    None
}

} // verus!

verus! {

/// Words of `s` read from the front, `cur` the word being read and `done`
/// the words already closed (std's `str::split_whitespace`).
pub open spec fn words_acc(s: Seq<char>, cur: Seq<char>, done: Seq<Seq<char>>) -> Seq<Seq<char>>
    decreases s.len(),
{
    if s.len() == 0 {
        if cur.len() > 0 {
            done.push(cur)
        } else {
            done
        }
    } else if is_white(s[0]) {
        words_acc(s.drop_first(), Seq::empty(), if cur.len() > 0 { done.push(cur) } else { done })
    } else {
        words_acc(s.drop_first(), cur.push(s[0]), done)
    }
}

/// The non-empty runs of non-white-space characters of `s`, in order.
pub open spec fn words(s: Seq<char>) -> Seq<Seq<char>> {
    words_acc(s, Seq::empty(), Seq::empty())
}

/// `s` split at white space, with no empty words.
pub fn split_words(s: &[char]) -> (parts: Vec<Vec<char>>)
    ensures
        views(parts@) == words(s@),
{
    let mut done: Vec<Vec<char>> = Vec::new();
    let mut cur: Vec<char> = Vec::new();
    let mut i: usize = 0;
    assert(s@.skip(0) =~= s@);
    assert(views(done@) =~= Seq::<Seq<char>>::empty());
    assert(cur@ =~= Seq::<char>::empty());
    while i < s.len()
        invariant
            i <= s@.len(),
            words(s@) == words_acc(s@.skip(i as int), cur@, views(done@)),
        decreases s.len() - i,
    {
        let c = s[i];
        assert(s@.skip(i as int).drop_first() =~= s@.skip(i + 1));
        if is_white_char(c) {
            if cur.len() > 0 {
                let ghost old_done = done@;
                let finished = cur;
                done.push(finished);
                assert(views(done@) =~= views(old_done).push(finished@));
            }
            cur = Vec::new();
            assert(cur@ =~= Seq::<char>::empty());
        } else {
            cur.push(c);
        }
        i = i + 1;
    }
    assert(s@.skip(i as int) =~= Seq::<char>::empty());
    if cur.len() > 0 {
        let ghost old_done = done@;
        let finished = cur;
        done.push(finished);
        assert(views(done@) =~= views(old_done).push(finished@));
    }
    done
}

/// The pieces with `sep` between each two (std's `join` on a slice of
/// strings).
pub open spec fn join_with(parts: Seq<Seq<char>>, sep: Seq<char>) -> Seq<char>
    decreases parts.len(),
{
    if parts.len() == 0 {
        Seq::empty()
    } else if parts.len() == 1 {
        parts[0]
    } else {
        join_with(parts.drop_last(), sep) + sep + parts.last()
    }
}

/// The views of a list of strings.
pub open spec fn str_views(v: Seq<String>) -> Seq<Seq<char>> {
    v.map_values(|s: String| s@)
}

/// The strings joined with `sep` between each two.
pub fn join_strings(parts: &Vec<String>, sep: &str) -> (r: String)
    ensures
        r@ == join_with(str_views(parts@), sep@),
{
    let mut out: Vec<char> = Vec::new();
    let mut i: usize = 0;
    assert(str_views(parts@).take(0) =~= Seq::<Seq<char>>::empty());
    while i < parts.len()
        invariant
            i <= parts@.len(),
            out@ == join_with(str_views(parts@).take(i as int), sep@),
        decreases parts.len() - i,
    {
        let ghost t = str_views(parts@).take(i + 1);
        assert(t.drop_last() =~= str_views(parts@).take(i as int));
        assert(t.last() == parts@[i as int]@);
        if i > 0 {
            push_str_chars(&mut out, sep);
        } else {
            assert(out@ =~= Seq::<char>::empty());
        }
        push_str_chars(&mut out, parts[i].as_str());
        i = i + 1;
        assert(out@ =~= join_with(t, sep@));
    }
    assert(str_views(parts@).take(i as int) =~= str_views(parts@));
    string_of(out.as_slice())
}

/// A line without the `\r` of a `\r\n` ending.
pub open spec fn strip_cr(l: Seq<char>) -> Seq<char> {
    if l.len() > 0 && l.last() == '\r' {
        l.drop_last()
    } else {
        l
    }
}

/// The lines of a text (std's `str::lines`): split at `\n`, a `\r` before
/// the `\n` dropped, and no empty last line for a text that ends with a
/// line break.
pub open spec fn lines_spec(s: Seq<char>) -> Seq<Seq<char>> {
    let p = split_any(s, seq!['\n']);
    let body = p.take(p.len() - 1).map_values(|l: Seq<char>| strip_cr(l));
    if p.last().len() == 0 {
        body
    } else {
        body.push(p.last())
    }
}

/// The lines of a text.
pub fn lines_of(content: &str) -> (r: Vec<String>)
    ensures
        str_views(r@) == lines_spec(content@),
{
    let c = chars_of(content);
    let nl = ['\n'];
    let parts = split_chars(c.as_slice(), nl.as_slice());
    let ghost p = split_any(content@, seq!['\n']);
    proof {
        assert(nl@ =~= seq!['\n']);
        lemma_split_any_len(content@, seq!['\n']);
    }
    assert(views(parts@) == p);
    let ghost body = p.take(p.len() - 1).map_values(|l: Seq<char>| strip_cr(l));
    let mut lines: Vec<String> = Vec::new();
    let mut i: usize = 0;
    let last = parts.len() - 1;
    while i < last
        invariant
            i <= last,
            last == parts@.len() - 1,
            views(parts@) == p,
            body == p.take(p.len() - 1).map_values(|l: Seq<char>| strip_cr(l)),
            str_views(lines@) == body.take(i as int),
        decreases last - i,
    {
        let part = &parts[i];
        assert(p[i as int] == part@);
        let line: String = if part.len() > 0 && part[part.len() - 1] == '\r' {
            let mut out: Vec<char> = Vec::new();
            let mut k: usize = 0;
            while k < part.len() - 1
                invariant
                    k <= part@.len() - 1,
                    part@.len() > 0,
                    out@ == part@.take(k as int),
                decreases part.len() - 1 - k,
            {
                out.push(part[k]);
                k = k + 1;
                assert(out@ =~= part@.take(k as int));
            }
            assert(out@ =~= part@.drop_last());
            string_of(out.as_slice())
        } else {
            string_of(part.as_slice())
        };
        let ghost before = str_views(lines@);
        lines.push(line);
        assert(str_views(lines@) =~= before.push(line@));
        assert(body.take(i + 1) =~= body.take(i as int).push(body[i as int]));
        i = i + 1;
    }
    assert(body.take(i as int) =~= body);
    assert(p.last() == parts@[last as int]@);
    if parts[last].len() > 0 {
        let ghost before = str_views(lines@);
        lines.push(string_of(parts[last].as_slice()));
        assert(str_views(lines@) =~= before.push(p.last()));
    }
    lines
}

/// Name for what std's `str::from_utf8` gives: the text when the bytes are
/// valid UTF-8.
pub uninterp spec fn utf8_decode_result(bytes: Seq<u8>) -> Option<Seq<char>>;

/// std's `str::from_utf8`, its error dropped, as an owned string.
#[verifier::external_body]
pub(crate) fn utf8_decode(bytes: &[u8]) -> (r: Option<String>)
    ensures
        match r {
            Some(s) => utf8_decode_result(bytes@) == Some(s@),
            None => utf8_decode_result(bytes@) is None,
        },
{
    std::str::from_utf8(bytes).ok().map(|s| s.to_string())
}

/// The decimal digits.
pub open spec fn decimal_digits() -> Seq<char> {
    "0123456789"@
}

/// `n` written in decimal, without leading zeros.
pub open spec fn decimal(n: nat) -> Seq<char>
    decreases n,
{
    if n < 10 {
        seq![decimal_digits()[n as int]]
    } else {
        decimal(n / 10).push(decimal_digits()[(n % 10) as int])
    }
}

/// `n` written in decimal (std's `to_string` on an integer).
pub fn decimal_string(n: u64) -> (r: String)
    ensures
        r@ == decimal(n as nat),
{
    let v = decimal_chars(n);
    string_of(v.as_slice())
}

/// The decimal digits of `n`.
fn decimal_chars(n: u64) -> (r: Vec<char>)
    ensures
        r@ == decimal(n as nat),
    decreases n,
{
    let digits = chars_of("0123456789");
    proof {
        reveal_strlit("0123456789");
    }
    assert(digits@.len() == 10);
    if n < 10 {
        let mut v: Vec<char> = Vec::new();
        v.push(digits[n as usize]);
        assert(v@ =~= seq![decimal_digits()[n as int]]);
        v
    } else {
        let mut v = decimal_chars(n / 10);
        v.push(digits[(n % 10) as usize]);
        v
    }
}

} // verus!
