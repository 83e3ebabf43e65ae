//! Mod loaders (Forge, NeoForge, Fabric): their version lists, how they are
//! labelled and ordered, and the names of the profiles they install.
use vstd::prelude::*;
use crate::mc_parser::{maven_coord_spec, maven_coord_to_path};
use crate::text::{
    chars_of, contains_seq, is_digit, is_prefix, str_contains, is_suffix, parse_u64, parse_u64_spec, push_str_chars, splitn_char,
    splitn_spec, split_words, str_ends_with, str_eq, str_starts_with, str_views, string_of, views, words,
};

verus! {

/// A mod loader.
#[derive(Debug, Clone, Copy, PartialEq, Eq, Structural)]
pub enum ModLoaderType {
    Forge,
    NeoForge,
    Fabric,
}

/// The lower-case name of a loader.
pub open spec fn loader_id(t: ModLoaderType) -> Seq<char> {
    match t {
        ModLoaderType::Forge => "forge"@,
        ModLoaderType::NeoForge => "neoforge"@,
        ModLoaderType::Fabric => "fabric"@,
    }
}

/// The loader a display name stands for (names are case-sensitive).
pub open spec fn loader_of_name(name: Seq<char>) -> Option<ModLoaderType> {
    if name == "Forge"@ {
        Some(ModLoaderType::Forge)
    } else if name == "NeoForge"@ {
        Some(ModLoaderType::NeoForge)
    } else if name == "Fabric"@ {
        Some(ModLoaderType::Fabric)
    } else {
        None
    }
}

impl ModLoaderType {
    /// The lower-case name: `forge`, `neoforge` or `fabric`.
    pub fn as_str(&self) -> (r: &'static str)
        ensures
            r@ == loader_id(*self),
    {
        match self {
            ModLoaderType::Forge => "forge",
            ModLoaderType::NeoForge => "neoforge",
            ModLoaderType::Fabric => "fabric",
        }
    }

    /// The loader of a display name (`Forge`, `NeoForge`, `Fabric`); any
    /// other name, in any other case, gives none.
    pub fn from_name(name: &str) -> (r: Option<ModLoaderType>)
        ensures
            r == loader_of_name(name@),
    {
        if str_eq(name, "Forge") {
            Some(ModLoaderType::Forge)
        } else if str_eq(name, "NeoForge") {
            Some(ModLoaderType::NeoForge)
        } else if str_eq(name, "Fabric") {
            Some(ModLoaderType::Fabric)
        } else {
            None
        }
    }
}

/// Which loaders have versions for a game version.
#[derive(Debug, Clone, Copy)]
pub struct LoaderAvailability {
    pub fabric: bool,
    pub forge: bool,
    pub neoforge: bool,
}

/// Whether a loader is available.
pub open spec fn supports_spec(a: LoaderAvailability, t: ModLoaderType) -> bool {
    match t {
        ModLoaderType::Forge => a.forge,
        ModLoaderType::NeoForge => a.neoforge,
        ModLoaderType::Fabric => a.fabric,
    }
}

impl LoaderAvailability {
    /// Whether the loader has versions for the game version.
    pub fn supports(&self, loader_type: ModLoaderType) -> (b: bool)
        ensures
            b == supports_spec(*self, loader_type),
    {
        match loader_type {
            ModLoaderType::Forge => self.forge,
            ModLoaderType::NeoForge => self.neoforge,
            ModLoaderType::Fabric => self.fabric,
        }
    }
}

/// The loader state shown for a game version: availability, the chosen
/// loader's versions, and the error met while fetching them.
#[derive(Debug, Clone)]
pub struct LoaderFetchResult {
    pub availability: LoaderAvailability,
    pub versions: Vec<String>,
    pub error: Option<String>,
}

/// One entry of Fabric's loader list.
#[derive(Debug)]
pub struct FabricLoaderEntry {
    pub loader: FabricLoaderInfo,
}

/// A Fabric loader version.
#[derive(Debug)]
pub struct FabricLoaderInfo {
    pub version: String,
    pub stable: bool,
}

/// Operations on mod loader versions.
pub struct ModLoaderApi;

/// Index of the first entry that ends with `marker`.
pub open spec fn first_with_suffix(vs: Seq<Seq<char>>, marker: Seq<char>) -> Option<int>
    decreases vs.len(),
{
    if vs.len() == 0 {
        None
    } else if is_suffix(marker, vs[0]) {
        Some(0)
    } else {
        match first_with_suffix(vs.drop_first(), marker) {
            Some(i) => Some(i + 1),
            None => None,
        }
    }
}

/// The version chosen by default: the first recommended one, else the first
/// stable one, else the first latest one, else the first of all.
pub open spec fn default_index_spec(vs: Seq<Seq<char>>) -> int {
    match first_with_suffix(vs, "(Recommended)"@) {
        Some(i) => i,
        None => match first_with_suffix(vs, "(Stable)"@) {
            Some(i) => i,
            None => match first_with_suffix(vs, "(Latest)"@) {
                Some(i) => i,
                None => 0,
            },
        },
    }
}

/// Whether `version` (`<mc>-<promo>` or `<mc>-<promo>-...`) is the promoted
/// build `promo` of game version `mc`; an empty promotion matches nothing.
pub open spec fn matches_promo_spec(version: Seq<char>, mc: Seq<char>, promo: Seq<char>) -> bool {
    let base = mc + "-"@ + promo;
    promo.len() > 0 && (version == base || is_prefix(base + "-"@, version))
}

/// NeoForge's version prefix for a game version: `1.20.4` gives `20.4.`,
/// `1.21` gives `21.0.`, and a version not starting with `1.` (such as
/// `26.1`) gives itself followed by `.`.
pub open spec fn neoforge_prefix_spec(mc: Seq<char>) -> Seq<char> {
    if is_prefix("1."@, mc) {
        let parts = splitn_spec(mc, '.', 4);
        let minor = if parts.len() > 1 { parts[1] } else { "0"@ };
        let patch = if parts.len() > 2 { parts[2] } else { "0"@ };
        minor + "."@ + patch + "."@
    } else {
        mc + "."@
    }
}

/// Where a maven artifact lies, or the coordinates themselves when they
/// have fewer than three pieces.
pub open spec fn maven_coords_path_spec(coords: Seq<char>) -> Seq<char> {
    match maven_coord_spec(coords) {
        Some(p) => p,
        None => coords,
    }
}

/// Index of the first entry ending with `marker`.
fn position_with_suffix(versions: &Vec<String>, marker: &str) -> (r: Option<usize>)
    ensures
        match r {
            Some(i) => first_with_suffix(str_views(versions@), marker@) == Some(i as int),
            None => first_with_suffix(str_views(versions@), marker@) is None,
        },
{
    let ghost s = str_views(versions@);
    let mut i: usize = 0;
    assert(s.skip(0) =~= s);
    while i < versions.len()
        invariant
            i <= versions@.len(),
            s == str_views(versions@),
            first_with_suffix(s, marker@) == match first_with_suffix(s.skip(i as int), marker@) {
                Some(j) => Some(j + i),
                None => None,
            },
        decreases versions.len() - i,
    {
        assert(s.skip(i as int)[0] == versions@[i as int]@);
        if str_ends_with(versions[i].as_str(), marker) {
            return Some(i);
        }
        assert(s.skip(i as int).drop_first() =~= s.skip(i + 1));
        i = i + 1;
    }
    assert(s.skip(i as int).len() == 0);
    None
}

impl ModLoaderApi {
    /// Index of the version to select by default: the first marked
    /// `(Recommended)`, else `(Stable)`, else `(Latest)`, else 0.
    pub fn default_version_index(versions: &Vec<String>) -> (r: usize)
        ensures
            r as int == default_index_spec(str_views(versions@)),
    {
        if let Some(i) = position_with_suffix(versions, "(Recommended)") {
            return i;
        }
        if let Some(i) = position_with_suffix(versions, "(Stable)") {
            return i;
        }
        if let Some(i) = position_with_suffix(versions, "(Latest)") {
            return i;
        }
        0
    }

    /// Whether a Forge version is the promoted build `promo` of `mc_version`.
    pub fn matches_promo(version: &str, mc_version: &str, promo: &str) -> (b: bool)
        ensures
            b == matches_promo_spec(version@, mc_version@, promo@),
    {
        if promo.unicode_len() == 0 {
            return false;
        }
        let mut base = chars_of(mc_version);
        push_str_chars(&mut base, "-");
        push_str_chars(&mut base, promo);
        let base_s = string_of(base.as_slice());
        push_str_chars(&mut base, "-");
        let dashed = string_of(base.as_slice());
        str_eq(version, base_s.as_str()) || str_starts_with(version, dashed.as_str())
    }

    /// NeoForge's version prefix for a game version.
    pub fn get_neoforge_prefix(mc_version: &str) -> (r: String)
        ensures
            r@ == neoforge_prefix_spec(mc_version@),
    {
        if str_starts_with(mc_version, "1.") {
            let c = chars_of(mc_version);
            let parts = splitn_char(c.as_slice(), '.', 4);
            let mut out: Vec<char> = Vec::new();
            if parts.len() > 1 {
                crate::text::extend_chars(&mut out, parts[1].as_slice());
            } else {
                push_str_chars(&mut out, "0");
            }
            push_str_chars(&mut out, ".");
            if parts.len() > 2 {
                crate::text::extend_chars(&mut out, parts[2].as_slice());
            } else {
                push_str_chars(&mut out, "0");
            }
            push_str_chars(&mut out, ".");
            proof {
                let ps = splitn_spec(mc_version@, '.', 4);
                assert(views(parts@) == ps);
                if parts@.len() > 1 {
                    assert(ps[1] == parts@[1]@);
                }
                if parts@.len() > 2 {
                    assert(ps[2] == parts@[2]@);
                }
            }
            string_of(out.as_slice())
        } else {
            let mut out = chars_of(mc_version);
            push_str_chars(&mut out, ".");
            string_of(out.as_slice())
        }
    }

    /// Where a maven artifact lies under the libraries directory; coordinates
    /// with fewer than three pieces are returned as they are.
    pub fn maven_coords_to_path(coords: &str) -> (r: String)
        ensures
            r@ == maven_coords_path_spec(coords@),
    {
        match maven_coord_to_path(coords) {
            Some(p) => p,
            None => String::from_str(coords),
        }
    }
}

/// Runs of ASCII digits of `s` read from the front, `cur` the run being
/// read and `done` those already closed.
pub open spec fn runs_acc(s: Seq<char>, cur: Seq<char>, done: Seq<Seq<char>>) -> Seq<Seq<char>>
    decreases s.len(),
{
    if s.len() == 0 {
        if cur.len() > 0 {
            done.push(cur)
        } else {
            done
        }
    } else if !is_digit(s[0]) {
        runs_acc(s.drop_first(), Seq::empty(), if cur.len() > 0 { done.push(cur) } else { done })
    } else {
        runs_acc(s.drop_first(), cur.push(s[0]), done)
    }
}

/// The maximal runs of ASCII digits of `s`, in order.
pub open spec fn digit_runs(s: Seq<char>) -> Seq<Seq<char>> {
    runs_acc(s, Seq::empty(), Seq::empty())
}

/// The number a run of digits stands for; `u64::MAX` when it does not fit.
pub open spec fn run_number(r: Seq<char>) -> u64 {
    match parse_u64_spec(r) {
        Some(v) => v,
        None => u64::MAX,
    }
}

/// The sort key of a version: the numbers in it, in order.
pub open spec fn sort_key_spec(s: Seq<char>) -> Seq<u64> {
    digit_runs(s).map_values(|r: Seq<char>| run_number(r))
}

/// The number of a run of digits.
fn run_value(run: &Vec<char>) -> (r: u64)
    ensures
        r == run_number(run@),
{
    match parse_u64(run.as_slice()) {
        Some(v) => v,
        None => u64::MAX,
    }
}

/// Lexicographic order of two sequences of numbers (a proper prefix comes
/// first), as std orders `Vec<u64>`.
pub open spec fn key_less(a: Seq<u64>, b: Seq<u64>) -> bool
    decreases a.len(),
{
    if a.len() == 0 {
        b.len() > 0
    } else if b.len() == 0 {
        false
    } else if a[0] != b[0] {
        a[0] < b[0]
    } else {
        key_less(a.drop_first(), b.drop_first())
    }
}

/// Whether `a` comes before `b` in lexicographic order.
pub fn key_is_less(a: &Vec<u64>, b: &Vec<u64>) -> (r: bool)
    ensures
        r == key_less(a@, b@),
{
    let mut i: usize = 0;
    assert(a@.skip(0) =~= a@);
    assert(b@.skip(0) =~= b@);
    while i < a.len() && i < b.len()
        invariant
            i <= a@.len(),
            i <= b@.len(),
            key_less(a@, b@) == key_less(a@.skip(i as int), b@.skip(i as int)),
        decreases a.len() - i,
    {
        assert(a@.skip(i as int)[0] == a@[i as int]);
        assert(b@.skip(i as int)[0] == b@[i as int]);
        if a[i] != b[i] {
            return a[i] < b[i];
        }
        assert(a@.skip(i as int).drop_first() =~= a@.skip(i + 1));
        assert(b@.skip(i as int).drop_first() =~= b@.skip(i + 1));
        i = i + 1;
    }
    i < b.len()
}

impl ModLoaderApi {
    /// The sort key of a version: each run of ASCII digits as a number
    /// (`u64::MAX` when too large), in order; `47.4.10` gives `[47, 4, 10]`.
    pub fn version_sort_key(s: &str) -> (r: Vec<u64>)
        ensures
            r@ == sort_key_spec(s@),
    {
        let c = chars_of(s);
        let mut out: Vec<u64> = Vec::new();
        let mut runs: Vec<Vec<char>> = Vec::new();
        let mut cur: Vec<char> = Vec::new();
        let mut i: usize = 0;
        assert(c@.skip(0) =~= c@);
        assert(views(runs@) =~= Seq::<Seq<char>>::empty());
        assert(cur@ =~= Seq::<char>::empty());
        while i < c.len()
            invariant
                i <= c@.len(),
                c@ == s@,
                digit_runs(s@) == runs_acc(c@.skip(i as int), cur@, views(runs@)),
                out@ == views(runs@).map_values(|r: Seq<char>| run_number(r)),
            decreases c.len() - i,
        {
            let ch = c[i];
            assert(c@.skip(i as int).drop_first() =~= c@.skip(i + 1));
            if !(ch >= '0' && ch <= '9') {
                if cur.len() > 0 {
                    let ghost old_runs = runs@;
                    let ghost old_out = out@;
                    out.push(run_value(&cur));
                    runs.push(cur);
                    assert(views(runs@) =~= views(old_runs).push(runs@.last()@));
                    assert(out@ =~= views(runs@).map_values(|r: Seq<char>| run_number(r)));
                }
                cur = Vec::new();
                assert(cur@ =~= Seq::<char>::empty());
            } else {
                cur.push(ch);
            }
            i = i + 1;
        }
        assert(c@.skip(i as int) =~= Seq::<char>::empty());
        if cur.len() > 0 {
            let ghost old_runs = runs@;
            out.push(run_value(&cur));
            runs.push(cur);
            assert(views(runs@) =~= views(old_runs).push(runs@.last()@));
            assert(out@ =~= views(runs@).map_values(|r: Seq<char>| run_number(r)));
        }
        out
    }
}

/// `v` without its first `n` characters (empty when it is shorter).
pub open spec fn tail_from(v: Seq<char>, n: int) -> Seq<char> {
    if n <= v.len() {
        v.skip(n)
    } else {
        Seq::empty()
    }
}

/// The sort key of a listed version, after its `plen`-character prefix.
pub open spec fn version_key(v: Seq<char>, plen: int) -> Seq<u64> {
    sort_key_spec(tail_from(v, plen))
}

/// `x` placed into `s` after every entry whose key is not less than its
/// own (for `s` sorted newest first, the place that keeps it so, after
/// the equal ones).
pub open spec fn insert_desc(s: Seq<Seq<char>>, x: Seq<char>, plen: int) -> Seq<Seq<char>>
    decreases s.len(),
{
    if s.len() == 0 {
        seq![x]
    } else if !key_less(version_key(s.last(), plen), version_key(x, plen)) {
        s.push(x)
    } else {
        insert_desc(s.drop_last(), x, plen).push(s.last())
    }
}

/// `s` sorted newest first by key; entries with equal keys keep their
/// order (std's stable `sort_by` with the comparison reversed).
pub open spec fn sort_desc(s: Seq<Seq<char>>, plen: int) -> Seq<Seq<char>>
    decreases s.len(),
{
    if s.len() == 0 {
        Seq::empty()
    } else {
        insert_desc(sort_desc(s.drop_last(), plen), s.last(), plen)
    }
}

/// The entries of `s` that start with `prefix`, in order.
pub open spec fn with_prefix(s: Seq<Seq<char>>, prefix: Seq<char>) -> Seq<Seq<char>>
    decreases s.len(),
{
    if s.len() == 0 {
        Seq::empty()
    } else if is_prefix(prefix, s.last()) {
        with_prefix(s.drop_last(), prefix).push(s.last())
    } else {
        with_prefix(s.drop_last(), prefix)
    }
}

/// The versions of a loader for a game version: those starting with
/// `prefix`, newest first.
pub open spec fn select_versions_spec(all: Seq<Seq<char>>, prefix: Seq<char>) -> Seq<Seq<char>> {
    sort_desc(with_prefix(all, prefix), prefix.len() as int)
}

/// Inserting after a run of entries with smaller keys is inserting before
/// that run.
proof fn lemma_insert_desc_split(s: Seq<Seq<char>>, x: Seq<char>, plen: int, j: int)
    requires
        0 <= j <= s.len(),
        forall|k: int| j <= k < s.len() ==> key_less(version_key(#[trigger] s[k], plen), version_key(x, plen)),
    ensures
        insert_desc(s, x, plen) == insert_desc(s.take(j), x, plen) + s.skip(j),
    decreases s.len(),
{
    if j == s.len() {
        assert(s.take(j) =~= s);
        assert(s.skip(j) =~= Seq::<Seq<char>>::empty());
        assert(insert_desc(s.take(j), x, plen) + s.skip(j) =~= insert_desc(s, x, plen));
    } else {
        assert(s[s.len() - 1] == s.last());
        lemma_insert_desc_split(s.drop_last(), x, plen, j);
        assert(s.drop_last().take(j) =~= s.take(j));
        assert(s.drop_last().skip(j).push(s.last()) =~= s.skip(j));
        assert(insert_desc(s, x, plen) =~= insert_desc(s.take(j), x, plen) + s.skip(j));
    }
}

/// The characters of `c` from index `n` on (none when it is shorter).
fn chars_from(c: &[char], n: usize) -> (r: Vec<char>)
    ensures
        r@ == tail_from(c@, n as int),
{
    let mut out: Vec<char> = Vec::new();
    if n > c.len() {
        return out;
    }
    let mut i: usize = n;
    while i < c.len()
        invariant
            n <= i <= c@.len(),
            out@ == c@.subrange(n as int, i as int),
        decreases c.len() - i,
    {
        out.push(c[i]);
        i = i + 1;
        assert(out@ =~= c@.subrange(n as int, i as int));
    }
    assert(c@.subrange(n as int, i as int) =~= c@.skip(n as int));
    out
}

/// The sort key of a listed version after its prefix.
fn key_after_prefix(v: &str, plen: usize) -> (r: Vec<u64>)
    ensures
        r@ == version_key(v@, plen as int),
{
    let c = chars_of(v);
    let t = chars_from(c.as_slice(), plen);
    let ts = string_of(t.as_slice());
    ModLoaderApi::version_sort_key(ts.as_str())
}

/// Inserts `x` into a list kept newest first, after the entries whose key
/// is not less than its own.
fn insert_version(out: &mut Vec<String>, x: String, plen: usize)
    ensures
        str_views(final(out)@) == insert_desc(str_views(old(out)@), x@, plen as int),
{
    let kx = key_after_prefix(x.as_str(), plen);
    let ghost s = str_views(out@);
    let mut j: usize = out.len();
    let mut stop = false;
    while j > 0 && !stop
        invariant
            j <= out@.len(),
            s == str_views(out@),
            kx@ == version_key(x@, plen as int),
            forall|k: int| j <= k < s.len() ==> key_less(version_key(#[trigger] s[k], plen as int), version_key(x@, plen as int)),
            stop ==> j > 0 && !key_less(version_key(s[j - 1], plen as int), version_key(x@, plen as int)),
        decreases j + if stop { 0int } else { 1int },
    {
        let kj = key_after_prefix(out[j - 1].as_str(), plen);
        assert(s[j - 1] == out@[j - 1]@);
        if !key_is_less(&kj, &kx) {
            stop = true;
        } else {
            j = j - 1;
        }
    }
    proof {
        lemma_insert_desc_split(s, x@, plen as int, j as int);
        let t = s.take(j as int);
        if t.len() > 0 {
            assert(t.last() == s[j - 1]);
        }
        assert(insert_desc(t, x@, plen as int) =~= t.push(x@));
    }
    let ghost xv = x@;
    out.insert(j, x);
    assert(str_views(out@) =~= s.take(j as int).push(xv) + s.skip(j as int));
}

impl ModLoaderApi {
    /// The versions of a loader for one game version: those starting with
    /// `prefix`, newest first by [`ModLoaderApi::version_sort_key`] of what
    /// follows the prefix; equal keys keep the order of `all`.
    pub fn select_versions(all: &Vec<String>, prefix: &str) -> (r: Vec<String>)
        ensures
            str_views(r@) == select_versions_spec(str_views(all@), prefix@),
    {
        let plen = chars_of(prefix).len();
        let ghost a = str_views(all@);
        let mut out: Vec<String> = Vec::new();
        let mut i: usize = 0;
        assert(a.take(0) =~= Seq::<Seq<char>>::empty());
        assert(str_views(out@) =~= Seq::<Seq<char>>::empty());
        while i < all.len()
            invariant
                i <= all@.len(),
                a == str_views(all@),
                plen == prefix@.len(),
                str_views(out@) == sort_desc(with_prefix(a.take(i as int), prefix@), plen as int),
            decreases all.len() - i,
        {
            let ghost t = a.take(i + 1);
            assert(t.drop_last() =~= a.take(i as int));
            assert(t.last() == all@[i as int]@);
            let ghost w = with_prefix(a.take(i as int), prefix@);
            if str_starts_with(all[i].as_str(), prefix) {
                assert(with_prefix(t, prefix@) == w.push(t.last()));
                assert(w.push(t.last()).drop_last() =~= w);
                insert_version(&mut out, all[i].clone(), plen);
            } else {
                assert(with_prefix(t, prefix@) == w);
            }
            i = i + 1;
        }
        assert(a.take(i as int) =~= a);
        out
    }
}

/// The key order is transitive.
pub proof fn lemma_key_less_trans(a: Seq<u64>, b: Seq<u64>, c: Seq<u64>)
    requires
        key_less(a, b),
        key_less(b, c),
    ensures
        key_less(a, c),
    decreases a.len(),
{
    if a.len() > 0 && b.len() > 0 && c.len() > 0 && a[0] == b[0] && b[0] == c[0] {
        lemma_key_less_trans(a.drop_first(), b.drop_first(), c.drop_first());
    }
}

/// Of two different keys one is less than the other, and never both.
pub proof fn lemma_key_less_total(a: Seq<u64>, b: Seq<u64>)
    ensures
        a != b ==> key_less(a, b) || key_less(b, a),
        !(key_less(a, b) && key_less(b, a)),
        !key_less(a, a),
    decreases a.len(),
{
    if a.len() > 0 && b.len() > 0 && a[0] == b[0] {
        lemma_key_less_total(a.drop_first(), b.drop_first());
        if a.drop_first() =~= b.drop_first() {
            assert forall|k: int| 0 <= k < a.len() implies a[k] == b[k] by {
                if k > 0 {
                    assert(a[k] == a.drop_first()[k - 1]);
                    assert(b[k] == b.drop_first()[k - 1]);
                }
            }
            assert(a =~= b);
        }
    }
    if a.len() > 0 {
        lemma_key_less_total(a.drop_first(), a.drop_first());
    }
    if a.len() == 0 && b.len() == 0 {
        assert(a =~= b);
    }
}

/// "Not less" is transitive.
proof fn lemma_key_ge_trans(a: Seq<u64>, b: Seq<u64>, c: Seq<u64>)
    requires
        !key_less(a, b),
        !key_less(b, c),
    ensures
        !key_less(a, c),
{
    lemma_key_less_total(b, c);
    if key_less(a, c) {
        if b != c {
            lemma_key_less_trans(a, c, b);
        }
    }
}

/// Sorted newest first: no entry's key is less than a later one's.
pub open spec fn sorted_desc(s: Seq<Seq<char>>, plen: int) -> bool {
    forall|i: int, j: int|
        0 <= i < j < s.len() ==> !key_less(version_key(#[trigger] s[i], plen), version_key(#[trigger] s[j], plen))
}

/// Insertion keeps the entries and adds `x`.
proof fn lemma_insert_desc_multiset(s: Seq<Seq<char>>, x: Seq<char>, plen: int)
    ensures
        insert_desc(s, x, plen).to_multiset() == s.to_multiset().insert(x),
    decreases s.len(),
{
    broadcast use vstd::seq_lib::group_to_multiset_ensures;
    if s.len() > 0 {
        if key_less(version_key(s.last(), plen), version_key(x, plen)) {
            lemma_insert_desc_multiset(s.drop_last(), x, plen);
            assert(s =~= s.drop_last().push(s.last()));
        }
    }
}

/// Insertion into a sorted list keeps it sorted.
proof fn lemma_insert_desc_sorted(s: Seq<Seq<char>>, x: Seq<char>, plen: int)
    requires
        sorted_desc(s, plen),
    ensures
        sorted_desc(insert_desc(s, x, plen), plen),
    decreases s.len(),
{
    broadcast use vstd::seq_lib::group_to_multiset_ensures;
    if s.len() > 0 {
        let kl = version_key(s.last(), plen);
        let kx = version_key(x, plen);
        if !key_less(kl, kx) {
            let r = s.push(x);
            assert forall|i: int, j: int| 0 <= i < j < r.len() implies !key_less(
                version_key(#[trigger] r[i], plen),
                version_key(#[trigger] r[j], plen),
            ) by {
                if j == s.len() && i < s.len() - 1 {
                    assert(!key_less(version_key(s[i], plen), version_key(s[s.len() - 1], plen)));
                    lemma_key_ge_trans(version_key(s[i], plen), kl, kx);
                }
            }
        } else {
            let d = s.drop_last();
            assert(sorted_desc(d, plen));
            lemma_insert_desc_sorted(d, x, plen);
            lemma_insert_desc_multiset(d, x, plen);
            let m = insert_desc(d, x, plen);
            let r = m.push(s.last());
            assert forall|i: int, j: int| 0 <= i < j < r.len() implies !key_less(
                version_key(#[trigger] r[i], plen),
                version_key(#[trigger] r[j], plen),
            ) by {
                if j == m.len() {
                    let e = m[i];
                    assert(m.to_multiset().count(e) > 0);
                    assert(d.to_multiset().insert(x).count(e) > 0);
                    if e == x {
                        lemma_key_less_total(kl, kx);
                    } else {
                        assert(d.to_multiset().count(e) > 0);
                        assert(d.contains(e));
                        let k = choose|k: int| 0 <= k < d.len() && d[k] == e;
                        assert(s[k] == e);
                        assert(!key_less(version_key(s[k], plen), version_key(s[s.len() - 1], plen)));
                    }
                } else {
                    assert(r[i] == m[i] && r[j] == m[j]);
                }
            }
        }
    }
}

/// The listed versions of a loader are exactly those with the prefix (as a
/// multiset), sorted newest first.
pub proof fn lemma_select_versions(all: Seq<Seq<char>>, prefix: Seq<char>)
    ensures
        select_versions_spec(all, prefix).to_multiset() == with_prefix(all, prefix).to_multiset(),
        sorted_desc(select_versions_spec(all, prefix), prefix.len() as int),
        forall|v: Seq<char>| select_versions_spec(all, prefix).contains(v) ==> is_prefix(prefix, v),
{
    lemma_sort_desc(with_prefix(all, prefix), prefix.len() as int);
    lemma_with_prefix(all, prefix);
    broadcast use vstd::seq_lib::group_to_multiset_ensures;
    assert forall|v: Seq<char>| select_versions_spec(all, prefix).contains(v) implies is_prefix(prefix, v) by {
        assert(select_versions_spec(all, prefix).to_multiset().count(v) > 0);
        assert(with_prefix(all, prefix).contains(v));
    }
}

/// Sorting keeps the entries and orders them newest first.
proof fn lemma_sort_desc(s: Seq<Seq<char>>, plen: int)
    ensures
        sort_desc(s, plen).to_multiset() == s.to_multiset(),
        sorted_desc(sort_desc(s, plen), plen),
    decreases s.len(),
{
    broadcast use vstd::seq_lib::group_to_multiset_ensures;
    if s.len() > 0 {
        lemma_sort_desc(s.drop_last(), plen);
        lemma_insert_desc_multiset(sort_desc(s.drop_last(), plen), s.last(), plen);
        lemma_insert_desc_sorted(sort_desc(s.drop_last(), plen), s.last(), plen);
        assert(s =~= s.drop_last().push(s.last()));
    } else {
        assert(sort_desc(s, plen) =~= Seq::<Seq<char>>::empty());
    }
}

/// Every entry kept by the prefix filter starts with the prefix.
proof fn lemma_with_prefix(s: Seq<Seq<char>>, prefix: Seq<char>)
    ensures
        forall|v: Seq<char>| with_prefix(s, prefix).contains(v) ==> is_prefix(prefix, v),
    decreases s.len(),
{
    if s.len() > 0 {
        lemma_with_prefix(s.drop_last(), prefix);
        let w = with_prefix(s.drop_last(), prefix);
        assert forall|v: Seq<char>| with_prefix(s, prefix).contains(v) implies is_prefix(prefix, v) by {
            if is_prefix(prefix, s.last()) {
                let k = choose|k: int| 0 <= k < w.push(s.last()).len() && w.push(s.last())[k] == v;
                if k < w.len() {
                    assert(w[k] == v);
                }
            }
        }
    }
}

/// A Forge version with its promotion shown: `(Recommended)` when it is
/// the recommended build, else `(Latest)` when it is the latest one.
pub open spec fn forge_label_spec(v: Seq<char>, mc: Seq<char>, rec: Seq<char>, latest: Seq<char>) -> Seq<char> {
    if matches_promo_spec(v, mc, rec) {
        v + " (Recommended)"@
    } else if matches_promo_spec(v, mc, latest) {
        v + " (Latest)"@
    } else {
        v
    }
}

/// A NeoForge version marked `(Beta)` when it holds `-beta`, else `(Stable)`.
pub open spec fn neoforge_label_spec(v: Seq<char>) -> Seq<char> {
    if contains_seq(v, "-beta"@) {
        v + " (Beta)"@
    } else {
        v + " (Stable)"@
    }
}

/// A Fabric loader version marked `(Stable)` or `(Beta)`.
pub open spec fn fabric_label_spec(version: Seq<char>, stable: bool) -> Seq<char> {
    version + if stable {
        " (Stable)"@
    } else {
        " (Beta)"@
    }
}

/// `a` followed by `b`.
fn concat2(a: &str, b: &str) -> (r: String)
    ensures
        r@ == a@ + b@,
{
    let mut v = chars_of(a);
    push_str_chars(&mut v, b);
    string_of(v.as_slice())
}

impl ModLoaderApi {
    /// One Forge version with its promotion shown.
    pub fn forge_version_label(version: &str, mc_version: &str, recommended: &str, latest: &str) -> (r: String)
        ensures
            r@ == forge_label_spec(version@, mc_version@, recommended@, latest@),
    {
        if Self::matches_promo(version, mc_version, recommended) {
            concat2(version, " (Recommended)")
        } else if Self::matches_promo(version, mc_version, latest) {
            concat2(version, " (Latest)")
        } else {
            String::from_str(version)
        }
    }

    /// Forge versions with their promotions shown, given the recommended
    /// and latest builds of the game version (empty when unknown).
    pub fn label_forge_versions(versions: &Vec<String>, mc_version: &str, recommended: &str, latest: &str) -> (r: Vec<String>)
        ensures
            str_views(r@) == str_views(versions@).map_values(
                |v: Seq<char>| forge_label_spec(v, mc_version@, recommended@, latest@),
            ),
    {
        let ghost want = str_views(versions@).map_values(
            |v: Seq<char>| forge_label_spec(v, mc_version@, recommended@, latest@),
        );
        let mut out: Vec<String> = Vec::new();
        let mut i: usize = 0;
        while i < versions.len()
            invariant
                i <= versions@.len(),
                want == str_views(versions@).map_values(
                    |v: Seq<char>| forge_label_spec(v, mc_version@, recommended@, latest@),
                ),
                str_views(out@) == want.take(i as int),
            decreases versions.len() - i,
        {
            let l = Self::forge_version_label(versions[i].as_str(), mc_version, recommended, latest);
            let ghost before = str_views(out@);
            out.push(l);
            assert(str_views(out@) =~= before.push(l@));
            assert(want.take(i + 1) =~= want.take(i as int).push(want[i as int]));
            i = i + 1;
        }
        assert(want.take(i as int) =~= want);
        out
    }

    /// NeoForge versions marked `(Beta)` or `(Stable)`.
    pub fn label_neoforge_versions(versions: &Vec<String>) -> (r: Vec<String>)
        ensures
            str_views(r@) == str_views(versions@).map_values(|v: Seq<char>| neoforge_label_spec(v)),
    {
        let ghost want = str_views(versions@).map_values(|v: Seq<char>| neoforge_label_spec(v));
        let mut out: Vec<String> = Vec::new();
        let mut i: usize = 0;
        while i < versions.len()
            invariant
                i <= versions@.len(),
                want == str_views(versions@).map_values(|v: Seq<char>| neoforge_label_spec(v)),
                str_views(out@) == want.take(i as int),
            decreases versions.len() - i,
        {
            let v = versions[i].as_str();
            let l = if str_contains(v, "-beta") {
                concat2(v, " (Beta)")
            } else {
                concat2(v, " (Stable)")
            };
            let ghost before = str_views(out@);
            out.push(l);
            assert(str_views(out@) =~= before.push(l@));
            assert(want.take(i + 1) =~= want.take(i as int).push(want[i as int]));
            i = i + 1;
        }
        assert(want.take(i as int) =~= want);
        out
    }

    /// Fabric loader versions marked `(Stable)` or `(Beta)`, in order.
    pub fn label_fabric_versions(entries: &Vec<FabricLoaderEntry>) -> (r: Vec<String>)
        ensures
            r@.len() == entries@.len(),
            forall|i: int|
                0 <= i < entries@.len() ==> (#[trigger] r@[i])@ == fabric_label_spec(
                    entries@[i].loader.version@,
                    entries@[i].loader.stable,
                ),
    {
        let mut out: Vec<String> = Vec::new();
        let mut i: usize = 0;
        while i < entries.len()
            invariant
                i <= entries@.len(),
                out@.len() == i,
                forall|k: int|
                    0 <= k < i ==> (#[trigger] out@[k])@ == fabric_label_spec(
                        entries@[k].loader.version@,
                        entries@[k].loader.stable,
                    ),
            decreases entries.len() - i,
        {
            let e = &entries[i];
            let l = if e.loader.stable {
                concat2(e.loader.version.as_str(), " (Stable)")
            } else {
                concat2(e.loader.version.as_str(), " (Beta)")
            };
            out.push(l);
            i = i + 1;
        }
        out
    }
}

/// The views of an optional list of strings.
pub open spec fn opt_list(o: Option<Vec<String>>) -> Option<Seq<Seq<char>>> {
    match o {
        Some(v) => Some(str_views(v@)),
        None => None,
    }
}

/// Whether some entry starts with `p`.
pub open spec fn any_with_prefix(list: Seq<Seq<char>>, p: Seq<char>) -> bool {
    exists|i: int| 0 <= i < list.len() && is_prefix(p, #[trigger] list[i])
}

/// Which loaders a game version has, from the loader lists (none when the
/// list could not be had, which counts as available): Fabric when its list
/// is not empty, Forge when a version starts with `<mc>-`, NeoForge when
/// one starts with the NeoForge prefix of the game version.
pub open spec fn availability_spec(
    mc: Seq<char>,
    fabric: Option<Seq<Seq<char>>>,
    forge: Option<Seq<Seq<char>>>,
    neoforge: Option<Seq<Seq<char>>>,
) -> LoaderAvailability {
    LoaderAvailability {
        fabric: match fabric {
            Some(v) => v.len() > 0,
            None => true,
        },
        forge: match forge {
            Some(l) => any_with_prefix(l, mc + "-"@),
            None => true,
        },
        neoforge: match neoforge {
            Some(l) => any_with_prefix(l, neoforge_prefix_spec(mc)),
            None => true,
        },
    }
}

/// Whether some entry of `list` starts with `p`.
fn any_starts_with(list: &Vec<String>, p: &str) -> (b: bool)
    ensures
        b == any_with_prefix(str_views(list@), p@),
{
    let mut i: usize = 0;
    while i < list.len()
        invariant
            i <= list@.len(),
            forall|k: int| 0 <= k < i ==> !is_prefix(p@, #[trigger] str_views(list@)[k]),
        decreases list.len() - i,
    {
        assert(str_views(list@)[i as int] == list@[i as int]@);
        if str_starts_with(list[i].as_str(), p) {
            return true;
        }
        i = i + 1;
    }
    false
}

/// The loader whose versions to fetch: the chosen one, when available.
pub open spec fn loader_to_fetch_spec(a: LoaderAvailability, loader: Option<ModLoaderType>) -> Option<ModLoaderType> {
    match loader {
        Some(lt) => if supports_spec(a, lt) {
            Some(lt)
        } else {
            None
        },
        None => None,
    }
}

impl ModLoaderApi {
    /// Which loaders a game version has, from the Fabric list for it and the
    /// full Forge and NeoForge version lists; a list that could not be had
    /// (`None`) counts as available.
    pub fn availability_from(
        mc_version: &str,
        fabric: &Option<Vec<String>>,
        forge: &Option<Vec<String>>,
        neoforge: &Option<Vec<String>>,
    ) -> (r: LoaderAvailability)
        ensures
            r == availability_spec(mc_version@, opt_list(*fabric), opt_list(*forge), opt_list(*neoforge)),
    {
        let fabric_ok = match fabric {
            Some(v) => v.len() > 0,
            None => true,
        };
        let forge_ok = match forge {
            Some(l) => {
                let p = concat2(mc_version, "-");
                any_starts_with(l, p.as_str())
            },
            None => true,
        };
        let neoforge_ok = match neoforge {
            Some(l) => {
                let p = Self::get_neoforge_prefix(mc_version);
                any_starts_with(l, p.as_str())
            },
            None => true,
        };
        LoaderAvailability { fabric: fabric_ok, forge: forge_ok, neoforge: neoforge_ok }
    }

    /// The loader whose versions are to be fetched: the chosen one when the
    /// game version has it, else none.
    pub fn loader_to_fetch(availability: &LoaderAvailability, loader: Option<ModLoaderType>) -> (r: Option<ModLoaderType>)
        ensures
            r == loader_to_fetch_spec(*availability, loader),
    {
        match loader {
            Some(lt) => if availability.supports(lt) {
                Some(lt)
            } else {
                None
            },
            None => None,
        }
    }
}

impl LoaderFetchResult {
    /// The state shown for a game version: the fetched versions, or the
    /// error met fetching them, or neither when nothing was fetched.
    pub fn from_outcome(availability: LoaderAvailability, outcome: Option<Result<Vec<String>, String>>) -> (r: LoaderFetchResult)
        ensures
            r.availability == availability,
            match outcome {
                Some(Ok(v)) => r.versions@ == v@ && r.error is None,
                Some(Err(e)) => r.versions@.len() == 0 && r.error == Some(e),
                None => r.versions@.len() == 0 && r.error is None,
            },
    {
        match outcome {
            Some(Ok(v)) => LoaderFetchResult { availability, versions: v, error: None },
            Some(Err(e)) => LoaderFetchResult { availability, versions: Vec::new(), error: Some(e) },
            None => LoaderFetchResult { availability, versions: Vec::new(), error: None },
        }
    }
}

/// A loader version as shown, without its label: the first word (the whole
/// text when it has none).
pub open spec fn clean_version_spec(v: Seq<char>) -> Seq<char> {
    if words(v).len() > 0 {
        words(v)[0]
    } else {
        v
    }
}

/// Index of the first `-`.
pub open spec fn first_dash(s: Seq<char>) -> Option<int>
    decreases s.len(),
{
    if s.len() == 0 {
        None
    } else if s[0] == '-' {
        Some(0)
    } else {
        match first_dash(s.drop_first()) {
            Some(i) => Some(i + 1),
            None => None,
        }
    }
}

/// The profile id Forge installs for a loader version: its first `-`
/// becomes `-forge-` (`1.20.1-47.2.0` gives `1.20.1-forge-47.2.0`).
pub open spec fn forge_id_spec(v: Seq<char>) -> Seq<char> {
    match first_dash(v) {
        Some(i) => v.take(i) + "-forge-"@ + v.skip(i + 1),
        None => v,
    }
}

/// The id of Fabric's profile.
pub open spec fn fabric_id_spec(loader: Seq<char>, mc: Seq<char>) -> Seq<char> {
    "fabric-loader-"@ + loader + "-"@ + mc
}

impl ModLoaderApi {
    /// The loader version without its `(Stable)`-like label.
    pub fn clean_loader_version(loader_version: &str) -> (r: String)
        ensures
            r@ == clean_version_spec(loader_version@),
    {
        let c = chars_of(loader_version);
        let ws = split_words(c.as_slice());
        if ws.len() > 0 {
            assert(views(ws@)[0] == ws@[0]@);
            string_of(ws[0].as_slice())
        } else {
            String::from_str(loader_version)
        }
    }

    /// The id of the profile Fabric installs.
    pub fn fabric_profile_id(loader_version: &str, mc_version: &str) -> (r: String)
        ensures
            r@ == fabric_id_spec(loader_version@, mc_version@),
    {
        let mut v = chars_of("fabric-loader-");
        push_str_chars(&mut v, loader_version);
        push_str_chars(&mut v, "-");
        push_str_chars(&mut v, mc_version);
        string_of(v.as_slice())
    }

    /// The id of the profile Forge installs.
    pub fn forge_profile_id(loader_version: &str) -> (r: String)
        ensures
            r@ == forge_id_spec(loader_version@),
    {
        let c = chars_of(loader_version);
        let mut i: usize = 0;
        assert(c@.skip(0) =~= c@);
        while i < c.len()
            invariant
                i <= c@.len(),
                c@ == loader_version@,
                first_dash(c@) == match first_dash(c@.skip(i as int)) {
                    Some(j) => Some(j + i),
                    None => None,
                },
            decreases c.len() - i,
        {
            assert(c@.skip(i as int)[0] == c@[i as int]);
            if c[i] == '-' {
                let mut out: Vec<char> = Vec::new();
                let mut k: usize = 0;
                while k < i
                    invariant
                        k <= i < c@.len(),
                        out@ == c@.take(k as int),
                    decreases i - k,
                {
                    out.push(c[k]);
                    k = k + 1;
                    assert(out@ =~= c@.take(k as int));
                }
                push_str_chars(&mut out, "-forge-");
                let rest = chars_from(c.as_slice(), i + 1);
                crate::text::extend_chars(&mut out, rest.as_slice());
                return string_of(out.as_slice());
            }
            assert(c@.skip(i as int).drop_first() =~= c@.skip(i + 1));
            i = i + 1;
        }
        assert(c@.skip(i as int).len() == 0);
        String::from_str(loader_version)
    }

    /// The id of the profile NeoForge installs: `neoforge-<version>`.
    pub fn neoforge_profile_id(loader_version: &str) -> (r: String)
        ensures
            r@ == "neoforge-"@ + loader_version@,
    {
        concat2("neoforge-", loader_version)
    }

    /// The id an installed Forge profile has: for an old-format installer
    /// the id its profile names, else (or when it names none) the usual one.
    pub fn forge_effective_id(is_old_format: bool, old_version_id: Option<String>, loader_version: &str) -> (r: String)
        ensures
            r@ == (if is_old_format && old_version_id is Some {
                old_version_id->0@
            } else {
                forge_id_spec(loader_version@)
            }),
    {
        if is_old_format {
            match old_version_id {
                Some(id) => id,
                None => Self::forge_profile_id(loader_version),
            }
        } else {
            Self::forge_profile_id(loader_version)
        }
    }
}

/// Forge's maven metadata (the list of all Forge versions).
pub const FORGE_METADATA_URL: &'static str = "https://maven.minecraftforge.net/net/minecraftforge/forge/maven-metadata.xml";

/// NeoForge's maven metadata.
pub const NEOFORGE_METADATA_URL: &'static str = "https://maven.neoforged.net/releases/net/neoforged/neoforge/maven-metadata.xml";

/// Forge's promoted builds per game version.
pub const FORGE_PROMOTIONS_URL: &'static str = "https://files.minecraftforge.net/net/minecraftforge/forge/promotions_slim.json";

/// Where Fabric lists its loader versions.
pub const FABRIC_LOADER_META: &'static str = "https://meta.fabricmc.net/v2/versions/loader/";

/// Forge's maven repository for its own artifacts.
pub const FORGE_MAVEN: &'static str = "https://maven.minecraftforge.net/";

/// Main class of the game versions that old Forge builds patch.
pub const LEGACY_MAIN_CLASS: &'static str = "net.minecraft.client.Minecraft";

/// Game arguments of the profiles written for old Forge builds.
pub const LEGACY_FORGE_ARGUMENTS: &'static str = "${auth_player_name} ${auth_session} --gameDir ${game_directory} --assetsDir ${game_assets}";

/// Release time written into the profiles of old Forge builds.
pub const LEGACY_FORGE_TIME: &'static str = "2012-01-01T00:00:00+00:00";

/// Where the game jar may lie inside an old Forge client zip, in the order
/// tried.
pub const CLIENT_ZIP_JAR: &'static str = "minecraft.jar";

/// The second place tried for the game jar inside a client zip.
pub const CLIENT_ZIP_BIN_JAR: &'static str = "bin/minecraft.jar";

/// `a`, `b` and `c` one after another.
fn concat3(a: &str, b: &str, c: &str) -> (r: String)
    ensures
        r@ == a@ + b@ + c@,
{
    let mut v = chars_of(a);
    push_str_chars(&mut v, b);
    push_str_chars(&mut v, c);
    string_of(v.as_slice())
}

/// `prefix`, `v`, `middle`, `v` and `suffix` one after another.
fn around_twice(prefix: &str, v: &str, middle: &str, suffix: &str) -> (r: String)
    ensures
        r@ == prefix@ + v@ + middle@ + v@ + suffix@,
{
    let mut out = chars_of(prefix);
    push_str_chars(&mut out, v);
    push_str_chars(&mut out, middle);
    push_str_chars(&mut out, v);
    push_str_chars(&mut out, suffix);
    string_of(out.as_slice())
}

impl ModLoaderApi {
    /// Where Fabric lists its loader versions for a game version.
    pub fn fabric_versions_url(mc_version: &str) -> (r: String)
        ensures
            r@ == FABRIC_LOADER_META@ + mc_version@,
    {
        concat2(FABRIC_LOADER_META, mc_version)
    }

    /// Where Fabric serves the profile of a loader version.
    pub fn fabric_profile_url(mc_version: &str, loader_version: &str) -> (r: String)
        ensures
            r@ == FABRIC_LOADER_META@ + mc_version@ + "/"@ + loader_version@ + "/profile/json"@,
    {
        let mut out = chars_of(FABRIC_LOADER_META);
        push_str_chars(&mut out, mc_version);
        push_str_chars(&mut out, "/");
        push_str_chars(&mut out, loader_version);
        push_str_chars(&mut out, "/profile/json");
        string_of(out.as_slice())
    }

    /// The path of a Forge build's file of the given kind (`installer.jar`,
    /// `universal.zip`, `client.zip`) in Forge's maven repository.
    pub fn forge_artifact_path(loader_version: &str, kind: &str) -> (r: String)
        ensures
            r@ == "net/minecraftforge/forge/"@ + loader_version@ + "/forge-"@ + loader_version@ + "-"@ + kind@,
    {
        let mut out = chars_of("net/minecraftforge/forge/");
        push_str_chars(&mut out, loader_version);
        push_str_chars(&mut out, "/forge-");
        push_str_chars(&mut out, loader_version);
        push_str_chars(&mut out, "-");
        push_str_chars(&mut out, kind);
        string_of(out.as_slice())
    }

    /// The URL of a Forge build's file of the given kind.
    pub fn forge_artifact_url(loader_version: &str, kind: &str) -> (r: String)
        ensures
            r@ == FORGE_MAVEN@ + "net/minecraftforge/forge/"@ + loader_version@ + "/forge-"@ + loader_version@ + "-"@
                + kind@,
    {
        let path = Self::forge_artifact_path(loader_version, kind);
        concat2(FORGE_MAVEN, path.as_str())
    }

    /// The URL of a NeoForge build's installer.
    pub fn neoforge_installer_url(loader_version: &str) -> (r: String)
        ensures
            r@ == "https://maven.neoforged.net/releases/net/neoforged/neoforge/"@ + loader_version@ + "/neoforge-"@
                + loader_version@ + "-installer.jar"@,
    {
        around_twice(
            "https://maven.neoforged.net/releases/net/neoforged/neoforge/",
            loader_version,
            "/neoforge-",
            "-installer.jar",
        )
    }

    /// The key of a promotion (`latest` or `recommended`) of a game version
    /// in Forge's promotions list.
    pub fn forge_promo_key(mc_version: &str, kind: &str) -> (r: String)
        ensures
            r@ == mc_version@ + "-"@ + kind@,
    {
        concat3(mc_version, "-", kind)
    }

    /// The library name under which an old Forge build's universal zip is
    /// recorded.
    pub fn legacy_forge_library_name(loader_version: &str) -> (r: String)
        ensures
            r@ == "net.minecraftforge:forge:"@ + loader_version@ + ":universal"@,
    {
        concat3("net.minecraftforge:forge:", loader_version, ":universal")
    }
}

/// A library of a written profile with its one download.
pub struct ProfileLibrary {
    pub name: String,
    pub path: String,
    pub url: String,
    pub sha1: String,
    pub size: u64,
}

/// The profile written for an old Forge build that has no installer: it
/// inherits the game version, starts the old main class with the old
/// arguments, and lists the build's universal zip as its library (none
/// when the build came as a client zip whose jar replaces the game's).
pub struct LegacyForgeProfile {
    pub id: String,
    pub inherits_from: String,
    pub time: String,
    pub release_time: String,
    pub version_type: String,
    pub main_class: String,
    pub minecraft_arguments: String,
    pub library: Option<ProfileLibrary>,
}

impl ModLoaderApi {
    /// The profile of an old Forge build without installer, given the bytes
    /// of its universal zip when there is one (recorded with its SHA-1 and
    /// size).
    pub fn legacy_forge_profile(mc_version: &str, loader_version: &str, universal: Option<&[u8]>) -> (r: LegacyForgeProfile)
        ensures
            r.id@ == forge_id_spec(loader_version@),
            r.inherits_from@ == mc_version@,
            r.time@ == LEGACY_FORGE_TIME@,
            r.release_time@ == LEGACY_FORGE_TIME@,
            r.version_type@ == "release"@,
            r.main_class@ == LEGACY_MAIN_CLASS@,
            r.minecraft_arguments@ == LEGACY_FORGE_ARGUMENTS@,
            match universal {
                Some(data) => r.library matches Some(l) && {
                    &&& l.name@ == "net.minecraftforge:forge:"@ + loader_version@ + ":universal"@
                    &&& l.path@ == "net/minecraftforge/forge/"@ + loader_version@ + "/forge-"@ + loader_version@
                        + "-"@ + "universal.zip"@
                    &&& l.url@ == FORGE_MAVEN@ + "net/minecraftforge/forge/"@ + loader_version@ + "/forge-"@
                        + loader_version@ + "-"@ + "universal.zip"@
                    &&& l.sha1@ == crate::mc_install::hex_spec(crate::mc_install::sha1_digest_result(data@))
                    &&& l.size == data@.len()
                },
                None => r.library is None,
            },
    {
        let library = match universal {
            Some(data) => Some(
                ProfileLibrary {
                    name: Self::legacy_forge_library_name(loader_version),
                    path: Self::forge_artifact_path(loader_version, "universal.zip"),
                    url: Self::forge_artifact_url(loader_version, "universal.zip"),
                    sha1: crate::mc_install::sha1_hex(data),
                    size: data.len() as u64,
                },
            ),
            None => None,
        };
        LegacyForgeProfile {
            id: Self::forge_profile_id(loader_version),
            inherits_from: String::from_str(mc_version),
            time: String::from_str(LEGACY_FORGE_TIME),
            release_time: String::from_str(LEGACY_FORGE_TIME),
            version_type: String::from_str("release"),
            main_class: String::from_str(LEGACY_MAIN_CLASS),
            minecraft_arguments: String::from_str(LEGACY_FORGE_ARGUMENTS),
            library,
        }
    }
}

} // verus!

verus! {

/// Name for the bytes of the entry `name` of a zip archive (zip's
/// `ZipArchive::new`, `by_name`, then the entry read to its end); `None`
/// when the data is no zip archive, has no such entry, or the entry cannot
/// be read.
pub uninterp spec fn zip_entry_result(archive: Seq<u8>, name: Seq<char>) -> Option<Seq<u8>>;

/// zip's `ZipArchive::new` over the bytes, `by_name`, then the entry read
/// to its end.
#[verifier::external_body]
fn zip_entry(archive: &[u8], name: &str) -> (r: Option<Vec<u8>>)
    ensures
        crate::instance_assets::opt_bytes(r) == zip_entry_result(archive@, name@),
{
    let mut zip = match zip::ZipArchive::new(std::io::Cursor::new(archive)) {
        Ok(z) => z,
        Err(_) => return None,
    };
    let mut entry = match zip.by_name(name) {
        Ok(e) => e,
        Err(_) => return None,
    };
    let mut out: Vec<u8> = Vec::new();
    match std::io::Read::read_to_end(&mut entry, &mut out) {
        Ok(_) => Some(out),
        Err(_) => None,
    }
}

/// The name of the profile inside a Forge installer.
pub const INSTALL_PROFILE: &'static str = "install_profile.json";

impl ModLoaderApi {
    /// The `install_profile.json` of a Forge installer, if it has one.
    pub fn installer_profile_bytes(installer: &[u8]) -> (r: Option<Vec<u8>>)
        ensures
            crate::instance_assets::opt_bytes(r) == zip_entry_result(installer@, "install_profile.json"@),
    {
        zip_entry(installer, INSTALL_PROFILE)
    }

    /// The game jar inside an old Forge client zip: `minecraft.jar`, else
    /// `bin/minecraft.jar`.
    pub fn client_zip_jar(client_zip: &[u8]) -> (r: Option<Vec<u8>>)
        ensures
            crate::instance_assets::opt_bytes(r) == match zip_entry_result(client_zip@, "minecraft.jar"@) {
                Some(b) => Some(b),
                None => zip_entry_result(client_zip@, "bin/minecraft.jar"@),
            },
    {
        match zip_entry(client_zip, CLIENT_ZIP_JAR) {
            Some(b) => Some(b),
            None => zip_entry(client_zip, CLIENT_ZIP_BIN_JAR),
        }
    }
}

/// What the launcher reads of an installer's `install_profile.json`.
pub struct InstallProfile {
    /// `versionInfo` when present (the mark of the old format), with its
    /// `id` when that is text.
    pub version_info: Option<Option<String>>,
    /// `install.filePath` (the jar inside the installer) and `install.path`
    /// (its maven coordinates), when both are text.
    pub install: Option<(String, String)>,
}

/// The id an old-format profile names, if it names one.
pub open spec fn profile_id_spec(p: InstallProfile) -> Option<Seq<char>> {
    match p.version_info {
        Some(Some(id)) => Some(id@),
        _ => None,
    }
}

/// Why an old-format installer cannot be installed.
#[derive(Debug, Clone, Copy, PartialEq, Eq, Structural)]
pub enum OldFormatError {
    /// The profile has no `versionInfo`.
    MissingVersionInfo,
    /// The `versionInfo` names no id.
    MissingId,
}

impl OldFormatError {
    /// The message shown for the error.
    pub fn message(&self) -> (r: &'static str)
        ensures
            r@ == match *self {
                OldFormatError::MissingVersionInfo => "install_profile.json missing versionInfo"@,
                OldFormatError::MissingId => "versionInfo missing id"@,
            },
    {
        match self {
            OldFormatError::MissingVersionInfo => "install_profile.json missing versionInfo",
            OldFormatError::MissingId => "versionInfo missing id",
        }
    }
}

impl ModLoaderApi {
    /// Whether an installer is of the old format (its profile has a
    /// `versionInfo`), and the version id that profile names; the two feed
    /// [`ModLoaderApi::forge_effective_id`].
    pub fn installer_format(profile: &InstallProfile) -> (r: (bool, Option<String>))
        ensures
            r.0 == (profile.version_info is Some),
            crate::launch::opt_string(r.1) == profile_id_spec(*profile),
    {
        match &profile.version_info {
            Some(Some(id)) => (true, Some(id.clone())),
            Some(None) => (true, None),
            None => (false, None),
        }
    }

    /// The id an old-format installer installs, or why there is none.
    pub fn old_format_profile_id(profile: &InstallProfile) -> (r: Result<String, OldFormatError>)
        ensures
            match r {
                Ok(id) => profile_id_spec(*profile) == Some(id@),
                Err(e) => e == (if profile.version_info is None {
                    OldFormatError::MissingVersionInfo
                } else {
                    OldFormatError::MissingId
                }) && profile_id_spec(*profile) is None,
            },
    {
        match &profile.version_info {
            Some(Some(id)) => Ok(id.clone()),
            Some(None) => Err(OldFormatError::MissingId),
            None => Err(OldFormatError::MissingVersionInfo),
        }
    }

    /// The jar an old-format installer embeds: where it goes under the
    /// libraries folder (from its maven coordinates) and its bytes; none
    /// when the profile names none or the installer does not hold it.
    pub fn embedded_jar(installer: &[u8], profile: &InstallProfile) -> (r: Option<(String, Vec<u8>)>)
        ensures
            opt_jar(r) == embedded_jar_spec(installer@, *profile),
    {
        match &profile.install {
            Some((file_path, coords)) => match zip_entry(installer, file_path.as_str()) {
                Some(b) => Some((Self::maven_coords_to_path(coords.as_str()), b)),
                None => None,
            },
            None => None,
        }
    }

    /// What to do with a downloaded Forge installer whose profile is
    /// `profile`: the version id it installs (the one its profile names,
    /// else the one guessed from the loader version), and how to install
    /// it.
    pub fn forge_installer_plan(installer: &[u8], profile: &InstallProfile, loader_version: &str) -> (r: (
        String,
        ForgeInstallerPlan,
    ))
        ensures
            r.0@ == match profile_id_spec(*profile) {
                Some(id) => id,
                None => forge_id_spec(loader_version@),
            },
            match r.1 {
                ForgeInstallerPlan::RunInstaller => profile.version_info is None,
                ForgeInstallerPlan::WriteProfile { id, jar } => profile_id_spec(*profile) == Some(id@)
                    && opt_jar(jar) == embedded_jar_spec(installer@, *profile),
                ForgeInstallerPlan::Invalid(e) => profile.version_info == Some(None::<String>)
                    && e == OldFormatError::MissingId,
            },
    {
        let (is_old, old_id) = Self::installer_format(profile);
        let effective = Self::forge_effective_id(is_old, old_id, loader_version);
        if !is_old {
            return (effective, ForgeInstallerPlan::RunInstaller);
        }
        match Self::old_format_profile_id(profile) {
            Ok(id) => {
                let jar = Self::embedded_jar(installer, profile);
                (effective, ForgeInstallerPlan::WriteProfile { id, jar })
            },
            Err(e) => (effective, ForgeInstallerPlan::Invalid(e)),
        }
    }
}

/// The jar an old-format installer embeds, by the profile's `install`.
pub open spec fn embedded_jar_spec(installer: Seq<u8>, profile: InstallProfile) -> Option<(Seq<char>, Seq<u8>)> {
    match profile.install {
        Some((file_path, coords)) => match zip_entry_result(installer, file_path@) {
            Some(b) => Some((maven_coords_path_spec(coords@), b)),
            None => None,
        },
        None => None,
    }
}

/// An embedded jar by the views of its path and bytes.
pub open spec fn opt_jar(o: Option<(String, Vec<u8>)>) -> Option<(Seq<char>, Seq<u8>)> {
    match o {
        Some((p, b)) => Some((p@, b@)),
        None => None,
    }
}

/// How a downloaded Forge installer is installed.
pub enum ForgeInstallerPlan {
    /// A current installer: run it.
    RunInstaller,
    /// An old-format installer: write its profile as the version `id`, and
    /// the jar it embeds, if any, at its path under the libraries folder.
    WriteProfile { id: String, jar: Option<(String, Vec<u8>)> },
    /// An old-format installer that cannot be installed.
    Invalid(OldFormatError),
}

} // verus!
