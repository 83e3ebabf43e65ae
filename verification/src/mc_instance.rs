//! Instances: their configuration, ordering of the instance list, and play
//! time bookkeeping.
use vstd::prelude::*;
use std::cmp::Ordering;
use crate::order::{
    directed, flip, flip_ordering, compare_i64, compare_u64, i64_order, lex_compare, lex_order,
    lemma_lex_order_equal, lemma_lex_order_flip, lemma_lex_order_trans, u64_order,
};
use crate::settings::SortMode;
use crate::text::{
    chars_of, parse_u64, parse_u64_spec, skip_parts, split_any, split_chars, str_eq, views,
    lemma_skip_parts_step, lemma_views_skip_first, to_lowercase, unicode_lowercase,
};

verus! {

/// Configuration of one game instance.
#[derive(Debug, Clone)]
pub struct InstanceConfig {
    pub id: String,
    pub name: String,
    pub version: String,
    pub mod_loader: String,
    pub mod_loader_version: String,
    pub xmx: String,
    pub xms: String,
    pub logs_enabled: bool,
    pub world_path: String,
    pub resource_pack: String,
    pub shader_pack: String,
    pub last_played: String,
    pub play_time_secs: u64,
    pub java_mode: String,
    pub java_path: String,
    pub created_at: i64,
}

impl Default for InstanceConfig {
    /// An unnamed vanilla instance with 2G/512M heap and logs enabled.
    fn default() -> (r: Self)
        ensures
            r.id@.len() == 0,
            r.name@.len() == 0,
            r.version@.len() == 0,
            r.mod_loader@ == "None"@,
            r.mod_loader_version@.len() == 0,
            r.xmx@ == "2G"@,
            r.xms@ == "512M"@,
            r.logs_enabled,
            r.world_path@.len() == 0,
            r.resource_pack@.len() == 0,
            r.shader_pack@.len() == 0,
            r.last_played@.len() == 0,
            r.play_time_secs == 0,
            r.java_mode@.len() == 0,
            r.java_path@.len() == 0,
            r.created_at == 0,
    {
        InstanceConfig {
            id: String::new(),
            name: String::new(),
            version: String::new(),
            mod_loader: String::from_str("None"),
            mod_loader_version: String::new(),
            xmx: String::from_str("2G"),
            xms: String::from_str("512M"),
            logs_enabled: true,
            world_path: String::new(),
            resource_pack: String::new(),
            shader_pack: String::new(),
            last_played: String::new(),
            play_time_secs: 0,
            java_mode: String::new(),
            java_path: String::new(),
            created_at: 0,
        }
    }
}

/// Order of two version segments: numerically when both parse as `u64`,
/// otherwise as strings.
pub open spec fn segment_order(x: Seq<char>, y: Seq<char>) -> Ordering {
    match (parse_u64_spec(x), parse_u64_spec(y)) {
        (Some(a), Some(b)) => u64_order(a, b),
        _ => lex_order(x, y),
    }
}

/// Segment-wise order; when one list runs out first it is the smaller.
pub open spec fn parts_order(a: Seq<Seq<char>>, b: Seq<Seq<char>>) -> Ordering
    decreases a.len(),
{
    if a.len() == 0 {
        if b.len() == 0 {
            Ordering::Equal
        } else {
            Ordering::Less
        }
    } else if b.len() == 0 {
        Ordering::Greater
    } else if segment_order(a[0], b[0]) != Ordering::Equal {
        segment_order(a[0], b[0])
    } else {
        parts_order(a.drop_first(), b.drop_first())
    }
}

/// The order of two version strings, compared by their `.`-separated
/// segments.
pub open spec fn version_order(a: Seq<char>, b: Seq<char>) -> Ordering {
    parts_order(split_any(a, seq!['.']), split_any(b, seq!['.']))
}

/// Swapping two segments flips their order.
pub proof fn lemma_segment_order_flip(x: Seq<char>, y: Seq<char>)
    ensures
        segment_order(y, x) == flip(segment_order(x, y)),
{
    lemma_lex_order_flip(x, y);
}

/// Swapping two segment lists flips their order.
pub proof fn lemma_parts_order_flip(a: Seq<Seq<char>>, b: Seq<Seq<char>>)
    ensures
        parts_order(b, a) == flip(parts_order(a, b)),
    decreases a.len(),
{
    if a.len() > 0 && b.len() > 0 {
        lemma_segment_order_flip(a[0], b[0]);
        lemma_parts_order_flip(a.drop_first(), b.drop_first());
    }
}

/// Swapping two versions flips their order: `compare_versions(b, a)` is the
/// reverse of `compare_versions(a, b)`.
pub proof fn lemma_version_order_flip(a: Seq<char>, b: Seq<char>)
    ensures
        version_order(b, a) == flip(version_order(a, b)),
{
    lemma_parts_order_flip(split_any(a, seq!['.']), split_any(b, seq!['.']));
}

/// Every segment list is equal to itself.
proof fn lemma_parts_order_refl(a: Seq<Seq<char>>)
    ensures
        parts_order(a, a) == Ordering::Equal,
    decreases a.len(),
{
    if a.len() > 0 {
        lemma_lex_order_equal(a[0], a[0]);
        lemma_parts_order_refl(a.drop_first());
    }
}

/// A segment list that is a proper prefix of another comes first.
proof fn lemma_parts_order_prefix(a: Seq<Seq<char>>, b: Seq<Seq<char>>)
    requires
        a.len() < b.len(),
        forall|k: int| 0 <= k < a.len() ==> b[k] == a[k],
    ensures
        parts_order(a, b) == Ordering::Less,
    decreases a.len(),
{
    if a.len() > 0 {
        lemma_lex_order_equal(a[0], a[0]);
        assert forall|k: int| 0 <= k < a.drop_first().len() implies b.drop_first()[k] == a.drop_first()[k] by {
            assert(b[k + 1] == a[k + 1]);
        }
        lemma_parts_order_prefix(a.drop_first(), b.drop_first());
    }
}

/// Every version compares equal to itself, comparing two versions both ways
/// gives reversed results, and a version whose `.`-separated segments are a
/// proper prefix of another's comes first (`1.20` before `1.20.4`).
pub proof fn lemma_version_order_laws(a: Seq<char>, b: Seq<char>)
    ensures
        version_order(a, a) == Ordering::Equal,
        version_order(b, a) == flip(version_order(a, b)),
        ({
            let (pa, pb) = (split_any(a, seq!['.']), split_any(b, seq!['.']));
            pa.len() < pb.len() && forall|k: int| 0 <= k < pa.len() ==> pb[k] == pa[k]
        }) ==> version_order(a, b) == Ordering::Less,
{
    lemma_parts_order_refl(split_any(a, seq!['.']));
    lemma_version_order_flip(a, b);
    let (pa, pb) = (split_any(a, seq!['.']), split_any(b, seq!['.']));
    if pa.len() < pb.len() && forall|k: int| 0 <= k < pa.len() ==> pb[k] == pa[k] {
        lemma_parts_order_prefix(pa, pb);
    }
}

fn compare_segment(x: &[char], y: &[char]) -> (o: Ordering)
    ensures
        o == segment_order(x@, y@),
{
    match (parse_u64(x), parse_u64(y)) {
        (Some(a), Some(b)) => compare_u64(a, b),
        _ => lex_compare(x, y),
    }
}

/// Compares two version strings segment by segment (split at `.`): two
/// segments that both parse as `u64` compare numerically, others as
/// strings; the first unequal segment decides, and a version that runs out
/// of segments first is the smaller.
pub fn compare_versions(a: &str, b: &str) -> (o: Ordering)
    ensures
        o == version_order(a@, b@),
{
    let av = chars_of(a);
    let bv = chars_of(b);
    let dot = ['.'];
    let ap = split_chars(av.as_slice(), dot.as_slice());
    let bp = split_chars(bv.as_slice(), dot.as_slice());
    assert(dot@ =~= seq!['.']);
    let ghost sa = views(ap@);
    let ghost sb = views(bp@);
    let mut i: usize = 0;
    assert(skip_parts(sa, 0) =~= sa);
    assert(skip_parts(sb, 0) =~= sb);
    while i < ap.len() && i < bp.len()
        invariant
            sa == views(ap@),
            sb == views(bp@),
            i <= ap@.len(),
            i <= bp@.len(),
            version_order(a@, b@) == parts_order(skip_parts(sa, i), skip_parts(sb, i)),
        decreases ap.len() - i,
    {
        let o = compare_segment(ap[i].as_slice(), bp[i].as_slice());
        proof {
            lemma_views_skip_first(ap@, i);
            lemma_views_skip_first(bp@, i);
        }
        match o {
            Ordering::Equal => {},
            _ => {
                return o;
            },
        }
        proof {
            lemma_skip_parts_step(sa, i);
            lemma_skip_parts_step(sb, i);
        }
        i = i + 1;
    }
    if i < ap.len() {
        Ordering::Greater
    } else if i < bp.len() {
        Ordering::Less
    } else {
        Ordering::Equal
    }
}


/// The list order of two loaded instances (each with its creation sort
/// key) under `mode`. Never-played instances go last whatever the
/// direction; all other comparisons follow `ascending`.
pub open spec fn entry_order(
    a: (InstanceConfig, i64),
    b: (InstanceConfig, i64),
    mode: SortMode,
    ascending: bool,
) -> Ordering {
    match mode {
        SortMode::Name => directed(
            lex_order(unicode_lowercase(a.0.name@), unicode_lowercase(b.0.name@)),
            ascending,
        ),
        SortMode::Version => directed(version_order(a.0.version@, b.0.version@), ascending),
        SortMode::CreatedAt => directed(i64_order(a.1, b.1), ascending),
        SortMode::LastPlayed => {
            let ae = a.0.last_played@.len() == 0;
            let be = b.0.last_played@.len() == 0;
            if ae && be {
                Ordering::Equal
            } else if ae {
                Ordering::Greater
            } else if be {
                Ordering::Less
            } else {
                directed(lex_order(a.0.last_played@, b.0.last_played@), ascending)
            }
        },
    }
}

/// Swapping two entries flips their list order.
pub proof fn lemma_entry_order_flip(
    a: (InstanceConfig, i64),
    b: (InstanceConfig, i64),
    mode: SortMode,
    ascending: bool,
)
    ensures
        entry_order(b, a, mode, ascending) == flip(entry_order(a, b, mode, ascending)),
{
    lemma_lex_order_flip(unicode_lowercase(a.0.name@), unicode_lowercase(b.0.name@));
    lemma_version_order_flip(a.0.version@, b.0.version@);
    lemma_lex_order_flip(a.0.last_played@, b.0.last_played@);
}

fn directed_ordering(o: Ordering, ascending: bool) -> (r: Ordering)
    ensures
        r == directed(o, ascending),
{
    if ascending {
        o
    } else {
        flip_ordering(o)
    }
}

/// Three-way comparison of two loaded instances under `mode`.
pub fn compare_entries(
    a: &(InstanceConfig, i64),
    b: &(InstanceConfig, i64),
    mode: SortMode,
    ascending: bool,
) -> (o: Ordering)
    ensures
        o == entry_order(*a, *b, mode, ascending),
{
    match mode {
        SortMode::Name => {
            let la = to_lowercase(a.0.name.as_str());
            let lb = to_lowercase(b.0.name.as_str());
            let ca = chars_of(la.as_str());
            let cb = chars_of(lb.as_str());
            directed_ordering(lex_compare(ca.as_slice(), cb.as_slice()), ascending)
        },
        SortMode::Version => directed_ordering(
            compare_versions(a.0.version.as_str(), b.0.version.as_str()),
            ascending,
        ),
        SortMode::CreatedAt => directed_ordering(compare_i64(a.1, b.1), ascending),
        SortMode::LastPlayed => {
            let ca = chars_of(a.0.last_played.as_str());
            let cb = chars_of(b.0.last_played.as_str());
            let ae = ca.len() == 0;
            let be = cb.len() == 0;
            if ae && be {
                Ordering::Equal
            } else if ae {
                Ordering::Greater
            } else if be {
                Ordering::Less
            } else {
                directed_ordering(lex_compare(ca.as_slice(), cb.as_slice()), ascending)
            }
        },
    }
}

/// `a` sorts strictly after `b`.
pub open spec fn goes_after(
    a: (InstanceConfig, i64),
    b: (InstanceConfig, i64),
    mode: SortMode,
    ascending: bool,
) -> bool {
    entry_order(a, b, mode, ascending) == Ordering::Greater
}

/// If `a` sorts after `b`, `b` does not sort after `a`.
pub proof fn lemma_goes_after_asym(
    a: (InstanceConfig, i64),
    b: (InstanceConfig, i64),
    mode: SortMode,
    ascending: bool,
)
    requires
        goes_after(a, b, mode, ascending),
    ensures
        !goes_after(b, a, mode, ascending),
{
    lemma_entry_order_flip(a, b, mode, ascending);
}

/// Whether `a` sorts strictly after `b`.
pub fn sorts_after(
    a: &(InstanceConfig, i64),
    b: &(InstanceConfig, i64),
    mode: SortMode,
    ascending: bool,
) -> (r: bool)
    ensures
        r == goes_after(*a, *b, mode, ascending),
{
    match compare_entries(a, b, mode, ascending) {
        Ordering::Greater => true,
        _ => false,
    }
}

/// No entry is followed by one that sorts before it.
pub open spec fn adjacent_sorted(s: Seq<(InstanceConfig, i64)>, mode: SortMode, ascending: bool) -> bool {
    forall|k: int| 0 <= k < s.len() - 1 ==> !goes_after(#[trigger] s[k], s[k + 1], mode, ascending)
}

/// `x` placed into `s` after every entry that does not sort after it (for
/// a sorted `s`, the place that keeps it sorted, after the equal ones).
pub open spec fn insert_entry(
    s: Seq<(InstanceConfig, i64)>,
    x: (InstanceConfig, i64),
    mode: SortMode,
    ascending: bool,
) -> Seq<(InstanceConfig, i64)>
    decreases s.len(),
{
    if s.len() == 0 {
        seq![x]
    } else if goes_after(s.last(), x, mode, ascending) {
        insert_entry(s.drop_last(), x, mode, ascending).push(s.last())
    } else {
        s.push(x)
    }
}

/// The entries in list order: each inserted in turn, so that entries that
/// compare equal keep their order (a stable sort).
pub open spec fn sort_entries(s: Seq<(InstanceConfig, i64)>, mode: SortMode, ascending: bool) -> Seq<(InstanceConfig, i64)>
    decreases s.len(),
{
    if s.len() == 0 {
        Seq::empty()
    } else {
        insert_entry(sort_entries(s.drop_last(), mode, ascending), s.last(), mode, ascending)
    }
}

/// Inserting `x` where the entries from `j` on all sort after it, and the
/// one before `j` does not, is inserting it at `j`.
proof fn lemma_insert_entry_at(
    s: Seq<(InstanceConfig, i64)>,
    x: (InstanceConfig, i64),
    mode: SortMode,
    ascending: bool,
    j: int,
)
    requires
        0 <= j <= s.len(),
        forall|k: int| j <= k < s.len() ==> goes_after(#[trigger] s[k], x, mode, ascending),
        j > 0 ==> !goes_after(s[j - 1], x, mode, ascending),
    ensures
        insert_entry(s, x, mode, ascending) == s.insert(j, x),
    decreases s.len(),
{
    if s.len() == 0 {
        assert(s.insert(j, x) =~= seq![x]);
    } else if j == s.len() {
        assert(s[s.len() - 1] == s.last());
        assert(s.insert(j, x) =~= s.push(x));
    } else {
        assert(s[s.len() - 1] == s.last());
        lemma_insert_entry_at(s.drop_last(), x, mode, ascending, j);
        assert(s.drop_last().insert(j, x).push(s.last()) =~= s.insert(j, x));
    }
}

/// Orders the loaded instances for display (a stable insertion sort):
/// the result is [`sort_entries`] of the input; it holds the same entries,
/// and no entry is followed by one that sorts before it.
#[verifier::spinoff_prover]
#[verifier::rlimit(40)]
pub fn sort_instances(instances: &mut Vec<(InstanceConfig, i64)>, mode: SortMode, ascending: bool)
    ensures
        final(instances)@ == sort_entries(old(instances)@, mode, ascending),
        final(instances)@.to_multiset() == old(instances)@.to_multiset(),
        adjacent_sorted(final(instances)@, mode, ascending),
{
    broadcast use vstd::seq_lib::to_multiset_insert, vstd::seq_lib::to_multiset_remove;
    broadcast use vstd::multiset::group_multiset_axioms;

    let ghost orig = instances@;
    let mut sorted: Vec<(InstanceConfig, i64)> = Vec::new();
    proof {
        vstd::seq_lib::to_multiset_len(sorted@);
        vstd::multiset::lemma_multiset_empty_len(sorted@.to_multiset());
        assert(sorted@.to_multiset().add(instances@.to_multiset()) =~= orig.to_multiset());
    }
    assert(orig.take(0) =~= Seq::<(InstanceConfig, i64)>::empty());
    assert(orig.skip(0) =~= orig);
    while instances.len() > 0
        invariant
            sorted@.to_multiset().add(instances@.to_multiset()) == orig.to_multiset(),
            adjacent_sorted(sorted@, mode, ascending),
            instances@.len() <= orig.len(),
            instances@ == orig.skip(orig.len() - instances@.len()),
            sorted@ == sort_entries(orig.take(orig.len() - instances@.len()), mode, ascending),
        decreases instances.len(),
    {
        let ghost before = instances@;
        let ghost done = orig.len() - before.len();
        let x = instances.remove(0);
        proof {
            assert(before[0] == orig[done]);
            assert(instances@ =~= orig.skip(done + 1));
            assert(orig.take(done + 1).drop_last() =~= orig.take(done));
            assert(orig.take(done + 1).last() == x);
        }
        proof {
            vstd::seq_lib::to_multiset_remove(before, 0);
            assert(before[0] == x);
            assert(before.contains(x));
            vstd::seq_lib::to_multiset_contains(before, x);
        }
        let mut j: usize = sorted.len();
        let mut stop = false;
        while j > 0 && !stop
            invariant
                j <= sorted@.len(),
                j < sorted@.len() ==> goes_after(sorted@[j as int], x, mode, ascending),
                forall|k: int| j <= k < sorted@.len() ==> goes_after(#[trigger] sorted@[k], x, mode, ascending),
                stop ==> j > 0 && !goes_after(sorted@[j - 1], x, mode, ascending),
            decreases j + if stop { 0int } else { 1int },
        {
            if sorts_after(&sorted[j - 1], &x, mode, ascending) {
                j = j - 1;
            } else {
                stop = true;
            }
        }
        let ghost s = sorted@;
        proof {
            if j < s.len() {
                lemma_goes_after_asym(s[j as int], x, mode, ascending);
            }
            lemma_insert_entry_at(s, x, mode, ascending, j as int);
        }
        sorted.insert(j, x);
        assert(sorted@ == s.insert(j as int, x));
        proof {
            vstd::seq_lib::to_multiset_insert(s, j as int, x);
        }
        assert forall|k: int| 0 <= k < sorted@.len() - 1 implies !goes_after(
            #[trigger] sorted@[k],
            sorted@[k + 1],
            mode,
            ascending,
        ) by {
            if k + 1 < j {
                assert(sorted@[k] == s[k] && sorted@[k + 1] == s[k + 1]);
            } else if k + 1 == j {
                assert(sorted@[k] == s[k] && sorted@[k + 1] == x);
            } else if k == j {
                assert(sorted@[k] == x && sorted@[k + 1] == s[k]);
            } else {
                assert(sorted@[k] == s[k - 1] && sorted@[k + 1] == s[k]);
            }
        }
        assert(sorted@.to_multiset() == s.to_multiset().insert(x));
        assert(sorted@.to_multiset().add(instances@.to_multiset()) =~= orig.to_multiset());
    }
    proof {
        vstd::seq_lib::to_multiset_len(instances@);
        vstd::multiset::lemma_multiset_empty_len(instances@.to_multiset());
        assert(sorted@.to_multiset() =~= orig.to_multiset());
        assert(orig.take(orig.len() as int) =~= orig);
    }
    *instances = sorted;
}


/// In last-played order, whichever the direction: once a never-played
/// instance appears in a sorted list, every later one is never-played too
/// (never-played instances sink to the bottom).
pub proof fn lemma_never_played_last(
    s: Seq<(InstanceConfig, i64)>,
    ascending: bool,
    i: int,
    j: int,
)
    requires
        adjacent_sorted(s, SortMode::LastPlayed, ascending),
        0 <= i < j < s.len(),
        s[i].0.last_played@.len() == 0,
    ensures
        s[j].0.last_played@.len() == 0,
    decreases j - i,
{
    assert(!goes_after(s[i], s[i + 1], SortMode::LastPlayed, ascending));
    if i + 1 < j {
        lemma_never_played_last(s, ascending, i + 1, j);
    }
}

/// "Not after" is transitive for every order but the version order.
pub proof fn lemma_not_after_trans(
    a: (InstanceConfig, i64),
    b: (InstanceConfig, i64),
    c: (InstanceConfig, i64),
    mode: SortMode,
    ascending: bool,
)
    requires
        mode != SortMode::Version,
        !goes_after(a, b, mode, ascending),
        !goes_after(b, c, mode, ascending),
    ensures
        !goes_after(a, c, mode, ascending),
{
    let (na, nb, nc) = (
        unicode_lowercase(a.0.name@),
        unicode_lowercase(b.0.name@),
        unicode_lowercase(c.0.name@),
    );
    let (pa, pb, pc) = (a.0.last_played@, b.0.last_played@, c.0.last_played@);
    lemma_lex_order_flip(na, nb);
    lemma_lex_order_flip(nb, nc);
    lemma_lex_order_flip(na, nc);
    lemma_lex_order_flip(pa, pb);
    lemma_lex_order_flip(pb, pc);
    lemma_lex_order_flip(pa, pc);
    if ascending {
        if mode == SortMode::Name {
            lemma_lex_order_trans(na, nb, nc);
        } else if mode == SortMode::LastPlayed && pa.len() > 0 && pb.len() > 0 && pc.len() > 0 {
            lemma_lex_order_trans(pa, pb, pc);
        }
    } else {
        if mode == SortMode::Name {
            lemma_lex_order_trans(nc, nb, na);
        } else if mode == SortMode::LastPlayed && pa.len() > 0 && pb.len() > 0 && pc.len() > 0 {
            lemma_lex_order_trans(pc, pb, pa);
        }
    }
}

/// For every order but the version order (whose mixed numeric and string
/// segment comparison is not transitive), a list that `sort_instances`
/// returns is sorted pairwise, not only between neighbours.
pub proof fn lemma_sorted_pairwise(
    s: Seq<(InstanceConfig, i64)>,
    mode: SortMode,
    ascending: bool,
    i: int,
    j: int,
)
    requires
        mode != SortMode::Version,
        adjacent_sorted(s, mode, ascending),
        0 <= i < j < s.len(),
    ensures
        !goes_after(s[i], s[j], mode, ascending),
    decreases j - i,
{
    assert(!goes_after(s[j - 1], s[j], mode, ascending));
    if i < j - 1 {
        lemma_sorted_pairwise(s, mode, ascending, i, j - 1);
        lemma_not_after_trans(s[i], s[j - 1], s[j], mode, ascending);
    }
}


/// Inserting into a list with no inversions between neighbours keeps it so,
/// adds exactly the one entry, and ends with the entry or the old last one.
proof fn lemma_insert_entry_sorted(
    s: Seq<(InstanceConfig, i64)>,
    x: (InstanceConfig, i64),
    mode: SortMode,
    ascending: bool,
)
    requires
        adjacent_sorted(s, mode, ascending),
    ensures
        adjacent_sorted(insert_entry(s, x, mode, ascending), mode, ascending),
        insert_entry(s, x, mode, ascending).to_multiset() == s.to_multiset().insert(x),
        insert_entry(s, x, mode, ascending).len() == s.len() + 1,
        insert_entry(s, x, mode, ascending).last() == x || (s.len() > 0 && insert_entry(
            s,
            x,
            mode,
            ascending,
        ).last() == s.last()),
    decreases s.len(),
{
    broadcast use vstd::seq_lib::to_multiset_build;
    broadcast use vstd::multiset::group_multiset_axioms;

    if s.len() == 0 {
        assert(s =~= Seq::<(InstanceConfig, i64)>::empty());
        assert(seq![x] =~= s.push(x));
        assert(s.push(x).to_multiset() =~= s.to_multiset().insert(x));
    } else {
        let dl = s.drop_last();
        assert(dl.push(s.last()) =~= s);
        assert(adjacent_sorted(dl, mode, ascending)) by {
            assert forall|k: int| 0 <= k < dl.len() - 1 implies !goes_after(
                #[trigger] dl[k],
                dl[k + 1],
                mode,
                ascending,
            ) by {
                assert(dl[k] == s[k] && dl[k + 1] == s[k + 1]);
            }
        }
        if goes_after(s.last(), x, mode, ascending) {
            lemma_insert_entry_sorted(dl, x, mode, ascending);
            let t = insert_entry(dl, x, mode, ascending);
            let r = t.push(s.last());
            assert(!goes_after(t.last(), s.last(), mode, ascending)) by {
                if t.last() == x {
                    lemma_goes_after_asym(s.last(), x, mode, ascending);
                } else {
                    assert(t.last() == dl.last());
                    assert(s[s.len() - 2] == dl.last());
                    assert(!goes_after(s[s.len() - 2], s[s.len() - 2 + 1], mode, ascending));
                }
            }
            assert forall|k: int| 0 <= k < r.len() - 1 implies !goes_after(
                #[trigger] r[k],
                r[k + 1],
                mode,
                ascending,
            ) by {
                if k + 1 < t.len() {
                    assert(r[k] == t[k] && r[k + 1] == t[k + 1]);
                } else {
                    assert(r[k] == t.last() && r[k + 1] == s.last());
                }
            }
            assert(r.to_multiset() =~= s.to_multiset().insert(x));
        } else {
            let r = s.push(x);
            assert forall|k: int| 0 <= k < r.len() - 1 implies !goes_after(
                #[trigger] r[k],
                r[k + 1],
                mode,
                ascending,
            ) by {
                if k + 1 < s.len() {
                    assert(r[k] == s[k] && r[k + 1] == s[k + 1]);
                } else {
                    assert(r[k] == s.last() && r[k + 1] == x);
                }
            }
            assert(r.to_multiset() =~= s.to_multiset().insert(x));
        }
    }
}

/// The list order holds the same entries with no inversions between
/// neighbours.
proof fn lemma_sort_entries_sorted(s: Seq<(InstanceConfig, i64)>, mode: SortMode, ascending: bool)
    ensures
        adjacent_sorted(sort_entries(s, mode, ascending), mode, ascending),
        sort_entries(s, mode, ascending).to_multiset() == s.to_multiset(),
    decreases s.len(),
{
    broadcast use vstd::seq_lib::to_multiset_build;
    broadcast use vstd::multiset::group_multiset_axioms;

    if s.len() == 0 {
        assert(s.to_multiset() =~= Seq::<(InstanceConfig, i64)>::empty().to_multiset()) by {
            assert(s =~= Seq::<(InstanceConfig, i64)>::empty());
        }
    } else {
        lemma_sort_entries_sorted(s.drop_last(), mode, ascending);
        lemma_insert_entry_sorted(sort_entries(s.drop_last(), mode, ascending), s.last(), mode, ascending);
        assert(s.drop_last().push(s.last()) =~= s);
    }
}

/// Once a store is set to an order, the instances it loads come in that
/// order, whatever it was set to before: the same instances, no neighbour
/// sorting before the one ahead of it, and for every order but the
/// version order no later instance sorting before an earlier one.
pub proof fn lemma_set_sort_orders_load(
    before: InstanceStore,
    after: InstanceStore,
    mode: SortMode,
    ascending: bool,
    loaded: Seq<(InstanceConfig, i64)>,
)
    requires
        after@ == (before@.0, mode, ascending),
    ensures
        after@.0 == before@.0,
        sort_entries(loaded, after@.1, after@.2).to_multiset() == loaded.to_multiset(),
        adjacent_sorted(sort_entries(loaded, after@.1, after@.2), mode, ascending),
        mode != SortMode::Version ==> forall|i: int, j: int|
            0 <= i < j < loaded.len() ==> !goes_after(
                #[trigger] sort_entries(loaded, after@.1, after@.2)[i],
                #[trigger] sort_entries(loaded, after@.1, after@.2)[j],
                mode,
                ascending,
            ),
{
    let s = sort_entries(loaded, mode, ascending);
    lemma_sort_entries_sorted(loaded, mode, ascending);
    vstd::seq_lib::to_multiset_len(s);
    vstd::seq_lib::to_multiset_len(loaded);
    if mode != SortMode::Version {
        assert forall|i: int, j: int| 0 <= i < j < loaded.len() implies !goes_after(
            #[trigger] s[i],
            #[trigger] s[j],
            mode,
            ascending,
        ) by {
            lemma_sorted_pairwise(s, mode, ascending, i, j);
        }
    }
}

/// Where instance configurations live, and how the instance list is
/// ordered.
pub struct InstanceStore {
    base_dir: String,
    sort_mode: SortMode,
    sort_ascending: bool,
}

impl View for InstanceStore {
    /// The base directory, the sort mode and whether the order ascends.
    type V = (Seq<char>, SortMode, bool);

    closed spec fn view(&self) -> (Seq<char>, SortMode, bool) {
        (self.base_dir@, self.sort_mode, self.sort_ascending)
    }
}

/// `id` is the id of the entry at `i`, and of none before it.
pub open spec fn first_with_id(master: Seq<InstanceConfig>, id: Seq<char>, i: int) -> bool {
    &&& 0 <= i < master.len()
    &&& master[i].id@ == id
    &&& forall|j: int| 0 <= j < i ==> master[j].id@ != id
}

impl InstanceStore {
    /// A store rooted at `base_dir`, listing newest-created first.
    pub fn new(base_dir: String) -> (r: Self)
        ensures
            r@ == (base_dir@, SortMode::CreatedAt, false),
    {
        InstanceStore { base_dir, sort_mode: SortMode::CreatedAt, sort_ascending: false }
    }

    /// Chooses the list order.
    pub fn set_sort(&mut self, mode: SortMode, ascending: bool)
        ensures
            final(self)@ == (old(self)@.0, mode, ascending),
    {
        self.sort_mode = mode;
        self.sort_ascending = ascending;
    }

    /// The directory that holds one sub-directory per instance.
    pub fn base_dir(&self) -> (r: String)
        ensures
            r@ == self@.0,
    {
        self.base_dir.clone()
    }

    /// The chosen sort mode.
    pub fn sort_mode(&self) -> (r: SortMode)
        ensures
            r == self@.1,
    {
        self.sort_mode
    }

    /// Whether the chosen order ascends.
    pub fn sort_ascending(&self) -> (r: bool)
        ensures
            r == self@.2,
    {
        self.sort_ascending
    }

    /// Orders loaded instances (each with its creation sort key) as the
    /// store is set to, and drops the keys.
    pub fn sort_loaded(&self, instances: Vec<(InstanceConfig, i64)>) -> (r: Vec<InstanceConfig>)
        ensures
            r@ == sort_entries(instances@, self@.1, self@.2).map_values(|e: (InstanceConfig, i64)| e.0),
            exists|t: Seq<(InstanceConfig, i64)>|
                {
                    &&& t.to_multiset() == instances@.to_multiset()
                    &&& adjacent_sorted(t, self@.1, self@.2)
                    &&& r@ == t.map_values(|e: (InstanceConfig, i64)| e.0)
                },
    {
        let mut v = instances;
        sort_instances(&mut v, self.sort_mode, self.sort_ascending);
        let ghost t = v@;
        let mut out: Vec<InstanceConfig> = Vec::new();
        while v.len() > 0
            invariant
                t.to_multiset() == instances@.to_multiset(),
                adjacent_sorted(t, self@.1, self@.2),
                out@ + v@.map_values(|e: (InstanceConfig, i64)| e.0) == t.map_values(
                    |e: (InstanceConfig, i64)| e.0,
                ),
            decreases v.len(),
        {
            let ghost before = v@;
            let (c, _k) = v.remove(0);
            assert(before.map_values(|e: (InstanceConfig, i64)| e.0) =~= seq![c] + v@.map_values(
                |e: (InstanceConfig, i64)| e.0,
            ));
            out.push(c);
            assert(out@ + v@.map_values(|e: (InstanceConfig, i64)| e.0) =~= t.map_values(
                |e: (InstanceConfig, i64)| e.0,
            ));
        }
        assert(out@ =~= t.map_values(|e: (InstanceConfig, i64)| e.0));
        assert(t.to_multiset() == instances@.to_multiset() && adjacent_sorted(t, self@.1, self@.2)
            && out@ == t.map_values(|e: (InstanceConfig, i64)| e.0));
        out
    }

    /// Adds a finished play session to the first instance with `id` and
    /// returns its index, so that the caller can persist it; with no such
    /// instance nothing changes.
    pub fn record_play_session_end(
        &self,
        master: &mut Vec<InstanceConfig>,
        id: &str,
        elapsed_secs: u64,
    ) -> (r: Option<usize>)
        requires
            forall|i: int|
                first_with_id(old(master)@, id@, i) ==> old(master)@[i].play_time_secs
                    + elapsed_secs <= u64::MAX,
        ensures
            match r {
                Some(i) => {
                    &&& first_with_id(old(master)@, id@, i as int)
                    &&& final(master)@ == old(master)@.update(
                        i as int,
                        (InstanceConfig {
                            play_time_secs: (old(master)@[i as int].play_time_secs
                                + elapsed_secs) as u64,
                            ..old(master)@[i as int]
                        }),
                    )
                },
                None => {
                    &&& forall|j: int| 0 <= j < old(master)@.len() ==> old(master)@[j].id@ != id@
                    &&& final(master)@ == old(master)@
                },
            },
    {
        let mut i: usize = 0;
        while i < master.len()
            invariant
                i <= master@.len(),
                master@ == old(master)@,
                forall|j: int| 0 <= j < i ==> master@[j].id@ != id@,
                forall|k: int|
                    first_with_id(old(master)@, id@, k) ==> old(master)@[k].play_time_secs
                        + elapsed_secs <= u64::MAX,
            decreases master.len() - i,
        {
            if str_eq(master[i].id.as_str(), id) {
                assert(first_with_id(master@, id@, i as int));
                let t = master[i].play_time_secs + elapsed_secs;
                master[i].play_time_secs = t;
                return Some(i);
            }
            i = i + 1;
        }
        None
    }

    /// Records that the first instance with `id` was started at `now` (an
    /// RFC 3339 time) and returns its index, so that the caller can persist
    /// it; with no such instance nothing changes.
    pub fn record_launch_started(&self, master: &mut Vec<InstanceConfig>, id: &str, now: String) -> (r: Option<usize>)
        ensures
            match r {
                Some(i) => {
                    &&& first_with_id(old(master)@, id@, i as int)
                    &&& final(master)@ == old(master)@.update(
                        i as int,
                        (InstanceConfig { last_played: now, ..old(master)@[i as int] }),
                    )
                },
                None => {
                    &&& forall|j: int| 0 <= j < old(master)@.len() ==> old(master)@[j].id@ != id@
                    &&& final(master)@ == old(master)@
                },
            },
    {
        let mut i: usize = 0;
        while i < master.len()
            invariant
                i <= master@.len(),
                master@ == old(master)@,
                forall|j: int| 0 <= j < i ==> master@[j].id@ != id@,
            decreases master.len() - i,
        {
            if str_eq(master[i].id.as_str(), id) {
                assert(first_with_id(master@, id@, i as int));
                master[i].last_played = now;
                return Some(i);
            }
            i = i + 1;
        }
        None
    }

    /// Where an instance's configuration is kept: `<base>/<id>/instance.toml`.
    pub fn instance_file(&self, instance_id: &str) -> (r: String)
        ensures
            r@ == crate::paths::path_join(crate::paths::path_join(self@.0, instance_id@), "instance.toml"@),
    {
        let d = crate::paths::join(self.base_dir.as_str(), instance_id);
        crate::paths::join(d.as_str(), "instance.toml")
    }
}

} // verus!

verus! {

/// The creation sort key of a loaded configuration: its `created_at` when
/// positive, else the configuration file's creation (or change) time in
/// whole seconds, read as a signed number, else 0.
pub open spec fn creation_key_spec(created_at: i64, file_secs: Option<u64>) -> i64 {
    if created_at > 0 {
        created_at
    } else {
        match file_secs {
            Some(s) => s as i64,
            None => 0,
        }
    }
}

/// The creation sort key of a loaded configuration.
pub fn creation_sort_key(created_at: i64, file_secs: Option<u64>) -> (r: i64)
    ensures
        r == creation_key_spec(created_at, file_secs),
{
    if created_at > 0 {
        created_at
    } else {
        match file_secs {
            Some(s) => s as i64,
            None => 0,
        }
    }
}

} // verus!
