//! What an instance holds on disk: mods and packs that can be switched
//! off, log files, worlds and servers (read from NBT), and the folders an
//! instance can share with the rest of the system.
use vstd::prelude::*;
use crate::nbt::{
    compound_get, lemma_tags_view, nbt_root, parse_nbt, tag_view, tags_view, value_str, NbtError,
    NbtTag, NbtValue,
};
use crate::mc_instance::InstanceConfig;
use crate::order::{lex_less, lex_lt};
use crate::text::{
    chars_of, is_suffix, lines_of, lines_spec, str_ends_with, str_eq, str_views, string_of,
    to_lowercase, unicode_lowercase, utf8_decode, utf8_decode_result,
};

verus! {

/// What a switched-off file's name ends with.
pub const DISABLED_SUFFIX: &'static str = ".disabled";

/// Whether a file name is one the launcher will act on: not empty, no `/`
/// or `\`, and not `.` or `..`.
pub open spec fn valid_file_name(name: Seq<char>) -> bool {
    &&& name.len() > 0
    &&& !name.contains('/')
    &&& !name.contains('\\')
    &&& name != "."@
    &&& name != ".."@
}

/// Refuses file names that could leave the folder: empty, with `/` or `\`,
/// or `.` and `..`.
pub fn validate_file_name(name: &str) -> (r: Result<(), String>)
    ensures
        r is Ok <==> valid_file_name(name@),
        r matches Err(e) ==> e@ == "Invalid filename: "@ + name@,
{
    let c = chars_of(name);
    let mut bad = c.len() == 0 || str_eq(name, ".") || str_eq(name, "..");
    let mut i: usize = 0;
    while i < c.len()
        invariant
            i <= c@.len(),
            c@ == name@,
            !bad ==> forall|k: int| 0 <= k < i ==> c@[k] != '/' && c@[k] != '\\',
            bad ==> !valid_file_name(name@),
            !bad ==> name@.len() > 0 && name@ != "."@ && name@ != ".."@,
        decreases c.len() - i,
    {
        if c[i] == '/' || c[i] == '\\' {
            assert(name@[i as int] == c@[i as int]);
            bad = true;
        }
        i = i + 1;
    }
    if bad {
        let mut m = chars_of("Invalid filename: ");
        crate::text::push_str_chars(&mut m, name);
        Err(string_of(m.as_slice()))
    } else {
        Ok(())
    }
}

/// The name a file gets when switched: `.disabled` taken off, or put on.
pub open spec fn toggled_name(name: Seq<char>) -> Seq<char> {
    if is_suffix(DISABLED_SUFFIX@, name) {
        name.take(name.len() - DISABLED_SUFFIX@.len())
    } else {
        name + DISABLED_SUFFIX@
    }
}

/// The name a file gets when switched on or off, after the name is checked.
pub fn toggle_target(file_name: &str) -> (r: Result<String, String>)
    ensures
        match r {
            Ok(n) => valid_file_name(file_name@) && n@ == toggled_name(file_name@),
            Err(e) => !valid_file_name(file_name@) && e@ == "Invalid filename: "@ + file_name@,
        },
{
    match validate_file_name(file_name) {
        Err(e) => Err(e),
        Ok(()) => {
            proof {
                reveal_strlit(".disabled");
            }
            let c = chars_of(file_name);
            if str_ends_with(file_name, DISABLED_SUFFIX) {
                let keep = c.len() - 9;
                let mut out: Vec<char> = Vec::new();
                let mut i: usize = 0;
                while i < keep
                    invariant
                        i <= keep <= c@.len(),
                        out@ == c@.take(i as int),
                    decreases keep - i,
                {
                    out.push(c[i]);
                    i = i + 1;
                    assert(out@ =~= c@.take(i as int));
                }
                Ok(string_of(out.as_slice()))
            } else {
                let mut out = c;
                crate::text::push_str_chars(&mut out, DISABLED_SUFFIX);
                Ok(string_of(out.as_slice()))
            }
        },
    }
}

/// Switching a file off and on again gives back its name; so does
/// switching a switched-off file on and off again, unless its name without
/// the suffix still ends with it.
pub proof fn lemma_toggle_roundtrip(name: Seq<char>)
    requires
        is_suffix(DISABLED_SUFFIX@, name) ==> !is_suffix(DISABLED_SUFFIX@, toggled_name(name)),
    ensures
        toggled_name(toggled_name(name)) == name,
{
    reveal_strlit(".disabled");
    let d = DISABLED_SUFFIX@;
    if is_suffix(d, name) {
        let t = name.take(name.len() - d.len());
        assert(t + d =~= name);
    } else {
        let t = name + d;
        assert(t.subrange(t.len() - d.len(), t.len() as int) =~= d);
        assert(t.take(t.len() - d.len()) =~= name);
    }
}

/// Whether a file counts as switched on (its name does not end with
/// `.disabled`).
pub fn entry_enabled(file_name: &str) -> (b: bool)
    ensures
        b == !is_suffix(DISABLED_SUFFIX@, file_name@),
{
    !str_ends_with(file_name, DISABLED_SUFFIX)
}

/// The name a file has when switched on.
pub open spec fn logical_name(name: Seq<char>) -> Seq<char> {
    if is_suffix(DISABLED_SUFFIX@, name) {
        name.take(name.len() - DISABLED_SUFFIX@.len())
    } else {
        name
    }
}

/// Whether an entry of a folder is listed: no hidden entries; folders only
/// where folders are listed; files only when the name (without
/// `.disabled`) ends with one of the extensions, ignoring case.
pub open spec fn entry_shown(name: Seq<char>, is_dir: bool, exts: Seq<Seq<char>>, allow_dirs: bool) -> bool {
    if name.len() > 0 && name[0] == '.' {
        false
    } else if is_dir {
        allow_dirs
    } else {
        exists|i: int|
            0 <= i < exts.len() && is_suffix(
                unicode_lowercase(#[trigger] exts[i]),
                unicode_lowercase(logical_name(name)),
            )
    }
}

/// Whether an entry of a folder is listed.
pub fn entry_is_shown(file_name: &str, is_dir: bool, exts: &Vec<String>, allow_dirs: bool) -> (b: bool)
    ensures
        b == entry_shown(file_name@, is_dir, str_views(exts@), allow_dirs),
{
    proof {
        reveal_strlit(".disabled");
    }
    let c = chars_of(file_name);
    if c.len() > 0 && c[0] == '.' {
        return false;
    }
    if is_dir {
        return allow_dirs;
    }
    let logical: String = if str_ends_with(file_name, DISABLED_SUFFIX) {
        let keep = c.len() - 9;
        let mut out: Vec<char> = Vec::new();
        let mut i: usize = 0;
        while i < keep
            invariant
                i <= keep <= c@.len(),
                out@ == c@.take(i as int),
            decreases keep - i,
        {
            out.push(c[i]);
            i = i + 1;
            assert(out@ =~= c@.take(i as int));
        }
        string_of(out.as_slice())
    } else {
        String::from_str(file_name)
    };
    let lower = to_lowercase(logical.as_str());
    let mut i: usize = 0;
    while i < exts.len()
        invariant
            i <= exts@.len(),
            lower@ == unicode_lowercase(logical_name(file_name@)),
            !is_dir,
            !(file_name@.len() > 0 && file_name@[0] == '.'),
            forall|k: int|
                0 <= k < i ==> !is_suffix(unicode_lowercase(#[trigger] str_views(exts@)[k]), lower@),
        decreases exts.len() - i,
    {
        let e = to_lowercase(exts[i].as_str());
        assert(str_views(exts@)[i as int] == exts@[i as int]@);
        if str_ends_with(lower.as_str(), e.as_str()) {
            assert(is_suffix(
                unicode_lowercase(str_views(exts@)[i as int]),
                unicode_lowercase(logical_name(file_name@)),
            ));
            return true;
        }
        i = i + 1;
    }
    false
}

/// `x` placed into `s` after every entry whose key is not greater than its
/// own (for `s` in ascending key order, the place that keeps it so, after
/// the equal ones).
pub open spec fn insert_asc<T>(s: Seq<(Seq<char>, T)>, x: (Seq<char>, T)) -> Seq<(Seq<char>, T)>
    decreases s.len(),
{
    if s.len() == 0 {
        seq![x]
    } else if !lex_less(x.0, s.last().0) {
        s.push(x)
    } else {
        insert_asc(s.drop_last(), x).push(s.last())
    }
}

/// `s` in ascending key order; equal keys keep their order (std's stable
/// `sort_by` on the keys).
pub open spec fn sort_asc<T>(s: Seq<(Seq<char>, T)>) -> Seq<(Seq<char>, T)>
    decreases s.len(),
{
    if s.len() == 0 {
        Seq::empty()
    } else {
        insert_asc(sort_asc(s.drop_last()), s.last())
    }
}

/// The plain view of keyed items.
pub open spec fn keyed_view<T>(v: Seq<(Vec<char>, T)>) -> Seq<(Seq<char>, T)> {
    v.map_values(|p: (Vec<char>, T)| (p.0@, p.1))
}

/// Inserting after a run of entries with greater keys is inserting before
/// that run.
proof fn lemma_insert_asc_split<T>(s: Seq<(Seq<char>, T)>, x: (Seq<char>, T), j: int)
    requires
        0 <= j <= s.len(),
        forall|k: int| j <= k < s.len() ==> lex_less(x.0, (#[trigger] s[k]).0),
    ensures
        insert_asc(s, x) == insert_asc(s.take(j), x) + s.skip(j),
    decreases s.len(),
{
    if j == s.len() {
        assert(s.take(j) =~= s);
        assert(insert_asc(s.take(j), x) + s.skip(j) =~= insert_asc(s, x));
    } else {
        assert(s[s.len() - 1] == s.last());
        lemma_insert_asc_split(s.drop_last(), x, j);
        assert(s.drop_last().take(j) =~= s.take(j));
        assert(s.drop_last().skip(j).push(s.last()) =~= s.skip(j));
        assert(insert_asc(s, x) =~= insert_asc(s.take(j), x) + s.skip(j));
    }
}

/// Sorts keyed items by key, keeping the order of equal keys.
pub fn sort_keyed<T>(items: Vec<(Vec<char>, T)>) -> (r: Vec<(Vec<char>, T)>)
    ensures
        keyed_view(r@) == sort_asc(keyed_view(items@)),
{
    let ghost orig = keyed_view(items@);
    let mut rest = items;
    let mut out: Vec<(Vec<char>, T)> = Vec::new();
    let ghost mut done: int = 0;
    assert(orig.take(0) =~= Seq::<(Seq<char>, T)>::empty());
    assert(keyed_view(out@) =~= Seq::<(Seq<char>, T)>::empty());
    assert(keyed_view(rest@) =~= orig.skip(0));
    while rest.len() > 0
        invariant
            0 <= done <= orig.len(),
            rest@.len() == orig.len() - done,
            keyed_view(rest@) == orig.skip(done),
            keyed_view(out@) == sort_asc(orig.take(done)),
        decreases rest.len(),
    {
        let ghost t = orig.take(done + 1);
        assert(keyed_view(rest@)[0] == orig[done]);
        assert(t.drop_last() =~= orig.take(done));
        assert(t.last() == orig[done]);
        let ghost old_rest = rest@;
        let x = rest.remove(0);
        assert(rest@ =~= old_rest.drop_first());
        assert(keyed_view(rest@) =~= keyed_view(old_rest).drop_first());
        assert(keyed_view(rest@) =~= orig.skip(done + 1));
        let ghost s = keyed_view(out@);
        let ghost xv = (x.0@, x.1);
        let mut j: usize = out.len();
        let mut stop = false;
        while j > 0 && !stop
            invariant
                j <= out@.len(),
                s == keyed_view(out@),
                xv == (x.0@, x.1),
                forall|k: int| j <= k < s.len() ==> lex_less(xv.0, (#[trigger] s[k]).0),
                stop ==> j > 0 && !lex_less(xv.0, s[j - 1].0),
            decreases j + if stop { 0int } else { 1int },
        {
            assert(s[j - 1].0 == out@[j - 1].0@);
            if lex_lt(x.0.as_slice(), out[j - 1].0.as_slice()) {
                j = j - 1;
            } else {
                stop = true;
            }
        }
        proof {
            lemma_insert_asc_split(s, xv, j as int);
            let tk = s.take(j as int);
            if tk.len() > 0 {
                assert(tk.last() == s[j - 1]);
            }
            assert(insert_asc(tk, xv) =~= tk.push(xv));
        }
        out.insert(j, x);
        assert(keyed_view(out@) =~= s.take(j as int).push(xv) + s.skip(j as int));
        proof {
            done = done + 1;
        }
    }
    assert(orig.skip(done).len() == 0);
    assert(orig.take(done) =~= orig);
    out
}

/// One listed entry of an instance folder.
#[derive(Debug, Clone)]
pub struct FsEntry {
    pub file_name: String,
    /// Size (or `Folder`) and time of last change, as shown.
    pub info: String,
    /// Whether it is switched on (its name has no `.disabled`).
    pub enabled: bool,
}

/// Entries keyed by their names in lower case.
pub open spec fn by_lower_name(v: Seq<FsEntry>) -> Seq<(Seq<char>, FsEntry)> {
    v.map_values(|e: FsEntry| (unicode_lowercase(e.file_name@), e))
}

/// The values of keyed items, in order.
pub open spec fn values_of<T>(v: Seq<(Seq<char>, T)>) -> Seq<T> {
    v.map_values(|p: (Seq<char>, T)| p.1)
}

/// Orders listed entries by name, ignoring case (std's `to_lowercase`);
/// names equal in lower case keep their order.
pub fn sort_fs_entries(entries: Vec<FsEntry>) -> (r: Vec<FsEntry>)
    ensures
        r@ == values_of(sort_asc(by_lower_name(entries@))),
{
    let ghost orig = entries@;
    let mut rest = entries;
    let mut keyed: Vec<(Vec<char>, FsEntry)> = Vec::new();
    let ghost mut done: int = 0;
    while rest.len() > 0
        invariant
            0 <= done <= orig.len(),
            rest@.len() == orig.len() - done,
            rest@ == orig.skip(done),
            keyed_view(keyed@) == by_lower_name(orig.take(done)),
        decreases rest.len(),
    {
        let e = rest.remove(0);
        assert(e == orig[done]);
        let k = chars_of(to_lowercase(e.file_name.as_str()).as_str());
        let ghost before = keyed_view(keyed@);
        keyed.push((k, e));
        assert(keyed_view(keyed@) =~= before.push((k@, e)));
        assert(by_lower_name(orig.take(done + 1)) =~= by_lower_name(orig.take(done)).push(
            (unicode_lowercase(orig[done].file_name@), orig[done]),
        ));
        assert(rest@ =~= orig.skip(done + 1));
        proof {
            done = done + 1;
        }
    }
    assert(orig.take(done) =~= orig);
    let sorted = sort_keyed(keyed);
    let ghost sv = keyed_view(sorted@);
    let mut out: Vec<FsEntry> = Vec::new();
    let mut rest2 = sorted;
    let ghost mut n: int = 0;
    while rest2.len() > 0
        invariant
            0 <= n <= sv.len(),
            rest2@.len() == sv.len() - n,
            keyed_view(rest2@) == sv.skip(n),
            out@ == values_of(sv.take(n)),
        decreases rest2.len(),
    {
        assert(keyed_view(rest2@)[0] == sv[n]);
        let ghost old_rest = rest2@;
        let p = rest2.remove(0);
        assert(rest2@ =~= old_rest.drop_first());
        assert(keyed_view(rest2@) =~= keyed_view(old_rest).drop_first());
        assert(keyed_view(rest2@) =~= sv.skip(n + 1));
        let ghost before = out@;
        out.push(p.1);
        assert(values_of(sv.take(n + 1)) =~= values_of(sv.take(n)).push(sv[n].1));
        proof {
            n = n + 1;
        }
    }
    assert(sv.take(n) =~= sv);
    out
}

/// A world of an instance.
#[derive(Debug, Clone)]
pub struct WorldEntry {
    pub dir_name: String,
    /// The name stored in the world, or the folder's name.
    pub level_name: String,
    pub info: String,
}

/// Worlds keyed by their names in lower case.
pub open spec fn by_lower_level_name(v: Seq<WorldEntry>) -> Seq<(Seq<char>, WorldEntry)> {
    v.map_values(|e: WorldEntry| (unicode_lowercase(e.level_name@), e))
}

/// Orders worlds by name, ignoring case; names equal in lower case keep
/// their order.
pub fn sort_worlds(worlds: Vec<WorldEntry>) -> (r: Vec<WorldEntry>)
    ensures
        r@ == values_of(sort_asc(by_lower_level_name(worlds@))),
{
    let ghost orig = worlds@;
    let mut rest = worlds;
    let mut keyed: Vec<(Vec<char>, WorldEntry)> = Vec::new();
    let ghost mut done: int = 0;
    while rest.len() > 0
        invariant
            0 <= done <= orig.len(),
            rest@.len() == orig.len() - done,
            rest@ == orig.skip(done),
            keyed_view(keyed@) == by_lower_level_name(orig.take(done)),
        decreases rest.len(),
    {
        let e = rest.remove(0);
        assert(e == orig[done]);
        let k = chars_of(to_lowercase(e.level_name.as_str()).as_str());
        let ghost before = keyed_view(keyed@);
        keyed.push((k, e));
        assert(keyed_view(keyed@) =~= before.push((k@, e)));
        assert(by_lower_level_name(orig.take(done + 1)) =~= by_lower_level_name(orig.take(done)).push(
            (unicode_lowercase(orig[done].level_name@), orig[done]),
        ));
        assert(rest@ =~= orig.skip(done + 1));
        proof {
            done = done + 1;
        }
    }
    assert(orig.take(done) =~= orig);
    let sorted = sort_keyed(keyed);
    let ghost sv = keyed_view(sorted@);
    let mut out: Vec<WorldEntry> = Vec::new();
    let mut rest2 = sorted;
    let ghost mut n: int = 0;
    while rest2.len() > 0
        invariant
            0 <= n <= sv.len(),
            rest2@.len() == sv.len() - n,
            keyed_view(rest2@) == sv.skip(n),
            out@ == values_of(sv.take(n)),
        decreases rest2.len(),
    {
        assert(keyed_view(rest2@)[0] == sv[n]);
        let ghost old_rest = rest2@;
        let p = rest2.remove(0);
        assert(rest2@ =~= old_rest.drop_first());
        assert(keyed_view(rest2@) =~= keyed_view(old_rest).drop_first());
        assert(keyed_view(rest2@) =~= sv.skip(n + 1));
        out.push(p.1);
        assert(values_of(sv.take(n + 1)) =~= values_of(sv.take(n)).push(sv[n].1));
        proof {
            n = n + 1;
        }
    }
    assert(sv.take(n) =~= sv);
    out
}

/// The name shown for a world: the one stored in it, else its folder's.
pub fn world_display_name(dir_name: &str, stored: Option<String>) -> (r: String)
    ensures
        r@ == (match stored {
            Some(n) => n@,
            None => dir_name@,
        }),
{
    match stored {
        Some(n) => n,
        None => String::from_str(dir_name),
    }
}

/// Whether a file of the logs folder is listed: `.log`, `.log.gz` or `.txt`.
pub open spec fn is_log_name(name: Seq<char>) -> bool {
    is_suffix(".log"@, name) || is_suffix(".log.gz"@, name) || is_suffix(".txt"@, name)
}

/// Whether a file of the logs folder is listed.
pub fn is_log_file(name: &str) -> (b: bool)
    ensures
        b == is_log_name(name@),
{
    str_ends_with(name, ".log") || str_ends_with(name, ".log.gz") || str_ends_with(name, ".txt")
}

/// Log files in the order listed: `latest.log` first, then the others in
/// descending name order (so newer dated logs come first).
pub open spec fn log_before(a: Seq<char>, b: Seq<char>) -> bool {
    a != b && (a == "latest.log"@ || (b != "latest.log"@ && lex_less(b, a)))
}

/// `x` placed into `s` after every entry it does not come before.
pub open spec fn insert_log(s: Seq<Seq<char>>, x: Seq<char>) -> Seq<Seq<char>>
    decreases s.len(),
{
    if s.len() == 0 {
        seq![x]
    } else if !log_before(x, s.last()) {
        s.push(x)
    } else {
        insert_log(s.drop_last(), x).push(s.last())
    }
}

/// Log file names in listing order (std's stable `sort_by` with the
/// listing comparison).
pub open spec fn sort_logs(s: Seq<Seq<char>>) -> Seq<Seq<char>>
    decreases s.len(),
{
    if s.len() == 0 {
        Seq::empty()
    } else {
        insert_log(sort_logs(s.drop_last()), s.last())
    }
}

/// The listed log files among the names of a logs folder, in order.
pub open spec fn log_files_spec(names: Seq<Seq<char>>) -> Seq<Seq<char>> {
    sort_logs(names.filter(|n: Seq<char>| is_log_name(n)))
}

proof fn lemma_insert_log_split(s: Seq<Seq<char>>, x: Seq<char>, j: int)
    requires
        0 <= j <= s.len(),
        forall|k: int| j <= k < s.len() ==> log_before(x, #[trigger] s[k]),
    ensures
        insert_log(s, x) == insert_log(s.take(j), x) + s.skip(j),
    decreases s.len(),
{
    if j == s.len() {
        assert(s.take(j) =~= s);
        assert(insert_log(s.take(j), x) + s.skip(j) =~= insert_log(s, x));
    } else {
        assert(s[s.len() - 1] == s.last());
        lemma_insert_log_split(s.drop_last(), x, j);
        assert(s.drop_last().take(j) =~= s.take(j));
        assert(s.drop_last().skip(j).push(s.last()) =~= s.skip(j));
        assert(insert_log(s, x) =~= insert_log(s.take(j), x) + s.skip(j));
    }
}

/// Whether log `a` is listed before log `b`.
fn log_is_before(a: &str, b: &str) -> (r: bool)
    ensures
        r == log_before(a@, b@),
{
    if str_eq(a, b) {
        return false;
    }
    if str_eq(a, "latest.log") {
        return true;
    }
    if str_eq(b, "latest.log") {
        return false;
    }
    let ac = chars_of(a);
    let bc = chars_of(b);
    lex_lt(bc.as_slice(), ac.as_slice())
}

/// The log files among the names of a logs folder, in listing order:
/// `latest.log` first, then by name, descending.
pub fn list_log_files(names: &Vec<String>) -> (r: Vec<String>)
    ensures
        str_views(r@) == log_files_spec(str_views(names@)),
{
    let ghost all = str_views(names@);
    let mut out: Vec<String> = Vec::new();
    let mut i: usize = 0;
    proof {
        reveal(Seq::filter);
    }
    assert(all.take(0).filter(|n: Seq<char>| is_log_name(n)) =~= Seq::<Seq<char>>::empty());
    assert(str_views(out@) =~= Seq::<Seq<char>>::empty());
    while i < names.len()
        invariant
            i <= names@.len(),
            all == str_views(names@),
            str_views(out@) == sort_logs(all.take(i as int).filter(|n: Seq<char>| is_log_name(n))),
        decreases names.len() - i,
    {
        let ghost t = all.take(i + 1);
        assert(t.drop_last() =~= all.take(i as int));
        assert(t.last() == names@[i as int]@);
        let ghost f = all.take(i as int).filter(|n: Seq<char>| is_log_name(n));
        proof {
            reveal(Seq::filter);
        }
        if is_log_file(names[i].as_str()) {
            let x = names[i].clone();
            let ghost s = str_views(out@);
            assert(t.filter(|n: Seq<char>| is_log_name(n)) == f.push(x@));
            assert(f.push(x@).drop_last() =~= f);
            let mut j: usize = out.len();
            let mut stop = false;
            while j > 0 && !stop
                invariant
                    j <= out@.len(),
                    s == str_views(out@),
                    forall|k: int| j <= k < s.len() ==> log_before(x@, #[trigger] s[k]),
                    stop ==> j > 0 && !log_before(x@, s[j - 1]),
                decreases j + if stop { 0int } else { 1int },
            {
                assert(s[j - 1] == out@[j - 1]@);
                if log_is_before(x.as_str(), out[j - 1].as_str()) {
                    j = j - 1;
                } else {
                    stop = true;
                }
            }
            proof {
                lemma_insert_log_split(s, x@, j as int);
                let tk = s.take(j as int);
                if tk.len() > 0 {
                    assert(tk.last() == s[j - 1]);
                }
                assert(insert_log(tk, x@) =~= tk.push(x@));
            }
            let ghost xv = x@;
            out.insert(j, x);
            assert(str_views(out@) =~= s.take(j as int).push(xv) + s.skip(j as int));
        } else {
            assert(t.filter(|n: Seq<char>| is_log_name(n)) == f);
        }
        i = i + 1;
    }
    assert(all.take(i as int) =~= all);
    out
}

/// The last `max` lines (all of them when there are fewer).
pub open spec fn tail_spec(lines: Seq<Seq<char>>, max: nat) -> Seq<Seq<char>> {
    lines.skip(if lines.len() > max { lines.len() - max } else { 0 })
}

/// The last `max_lines` lines of a text.
pub fn tail_lines(content: &str, max_lines: usize) -> (r: Vec<String>)
    ensures
        str_views(r@) == tail_spec(lines_spec(content@), max_lines as nat),
{
    let lines = lines_of(content);
    let ghost all = str_views(lines@);
    let n = lines.len();
    let start: usize = if n > max_lines { n - max_lines } else { 0 };
    let mut out: Vec<String> = Vec::new();
    let mut k: usize = start;
    assert(all.subrange(start as int, start as int) =~= Seq::<Seq<char>>::empty());
    while k < n
        invariant
            start <= k <= n,
            n == lines@.len(),
            all == str_views(lines@),
            str_views(out@) == all.subrange(start as int, k as int),
        decreases n - k,
    {
        let ghost before = str_views(out@);
        out.push(lines[k].clone());
        assert(all[k as int] == lines@[k as int]@);
        assert(str_views(out@) =~= before.push(all[k as int]));
        assert(str_views(out@) =~= all.subrange(start as int, k + 1));
        k = k + 1;
    }
    assert(all.subrange(start as int, n as int) =~= all.skip(start as int));
    out
}

/// A server of the multiplayer list.
#[derive(Debug, Clone)]
pub struct ServerEntry {
    pub name: String,
    pub ip: String,
}

/// The text of a named string tag, or `default`.
pub open spec fn str_or(v: Option<NbtValue>, default: Seq<char>) -> Seq<char> {
    match v {
        Some(NbtValue::Str(s)) => s,
        _ => default,
    }
}

/// The servers of a `servers.dat` root: for each entry of its `servers`
/// list, the `name` (`(Unnamed)` when missing) and the `ip` (empty when
/// missing); no servers without such a list.
pub open spec fn servers_spec(root: NbtValue) -> Seq<(Seq<char>, Seq<char>)> {
    match compound_get(root, "servers"@) {
        Some(NbtValue::List(items)) => items.map_values(
            |s: NbtValue|
                (str_or(compound_get(s, "name"@), "(Unnamed)"@), str_or(compound_get(s, "ip"@), ""@)),
        ),
        _ => Seq::empty(),
    }
}

/// The plain values of servers.
pub open spec fn servers_view(v: Seq<ServerEntry>) -> Seq<(Seq<char>, Seq<char>)> {
    v.map_values(|e: ServerEntry| (e.name@, e.ip@))
}

/// The text of the string tag named `key`, or `default`.
fn named_str_or(tag: &NbtTag, key: &str, default: &str) -> (r: String)
    ensures
        r@ == str_or(compound_get(tag_view(*tag), key@), default@),
{
    match tag.get(key) {
        Some(t) => match t.as_str() {
            Some(s) => String::from_str(s),
            None => String::from_str(default),
        },
        None => String::from_str(default),
    }
}

/// The servers listed in a `servers.dat` root tag.
pub fn servers_from_nbt(root: &NbtTag) -> (r: Vec<ServerEntry>)
    ensures
        servers_view(r@) == servers_spec(tag_view(*root)),
{
    let mut out: Vec<ServerEntry> = Vec::new();
    match root.get("servers") {
        Some(NbtTag::List(items)) => {
            proof {
                lemma_tags_view(items@);
            }
            let ghost tv = tags_view(items@);
            let ghost want = tv.map_values(
                |s: NbtValue|
                    (str_or(compound_get(s, "name"@), "(Unnamed)"@), str_or(compound_get(s, "ip"@), ""@)),
            );
            let mut i: usize = 0;
            while i < items.len()
                invariant
                    i <= items@.len(),
                    tv == tags_view(items@),
                    tv.len() == items@.len(),
                    forall|j: int| 0 <= j < items@.len() ==> #[trigger] tv[j] == tag_view(items@[j]),
                    want == tv.map_values(
                        |s: NbtValue|
                            (str_or(compound_get(s, "name"@), "(Unnamed)"@), str_or(
                                compound_get(s, "ip"@),
                                ""@,
                            )),
                    ),
                    servers_view(out@) == want.take(i as int),
                decreases items.len() - i,
            {
                let name = named_str_or(&items[i], "name", "(Unnamed)");
                let ip = named_str_or(&items[i], "ip", "");
                let ghost before = servers_view(out@);
                out.push(ServerEntry { name, ip });
                assert(tv[i as int] == tag_view(items@[i as int]));
                assert(servers_view(out@) =~= before.push(want[i as int]));
                assert(want.take(i + 1) =~= want.take(i as int).push(want[i as int]));
                i = i + 1;
            }
            assert(want.take(i as int) =~= want);
        },
        _ => {
            assert(servers_view(out@) =~= Seq::<(Seq<char>, Seq<char>)>::empty());
        },
    }
    out
}

/// The servers of a `servers.dat` file's bytes, or why they could not be read.
pub fn parse_servers(bytes: &[u8]) -> (r: Result<Vec<ServerEntry>, NbtError>)
    ensures
        match r {
            Ok(v) => nbt_root(bytes@) matches Ok((_, root)) && servers_view(v@) == servers_spec(root),
            Err(e) => nbt_root(bytes@) == Err::<(Seq<char>, NbtValue), NbtError>(e),
        },
{
    match parse_nbt(bytes) {
        Ok((_, root)) => Ok(servers_from_nbt(&root)),
        Err(e) => Err(e),
    }
}

/// The name stored in a world's `level.dat` root: `Data`, then `LevelName`.
pub open spec fn level_name_spec(root: NbtValue) -> Option<Seq<char>> {
    match compound_get(root, "Data"@) {
        Some(d) => match compound_get(d, "LevelName"@) {
            Some(n) => value_str(n),
            None => None,
        },
        None => None,
    }
}

/// The name stored in a world's root tag.
pub fn level_name_from_nbt(root: &NbtTag) -> (r: Option<String>)
    ensures
        match r {
            Some(n) => level_name_spec(tag_view(*root)) == Some(n@),
            None => level_name_spec(tag_view(*root)) is None,
        },
{
    let data = match root.get("Data") {
        Some(d) => d,
        None => return None,
    };
    let name = match data.get("LevelName") {
        Some(n) => n,
        None => return None,
    };
    match name.as_str() {
        Some(s) => Some(String::from_str(s)),
        None => None,
    }
}

/// Name for what gzip decompression of `data` gives (flate2's `GzDecoder`
/// read to the end): the bytes decompressed before the stream ended or
/// failed, and whether it ended without error.
pub uninterp spec fn gunzip_result(data: Seq<u8>) -> (Seq<u8>, bool);

/// The view of optional bytes.
pub open spec fn opt_bytes(o: Option<Vec<u8>>) -> Option<Seq<u8>> {
    match o {
        Some(v) => Some(v@),
        None => None,
    }
}

/// flate2's `GzDecoder`, read to the end with std's `read_to_end`, which
/// keeps the bytes read before an error; whether the read succeeded.
#[verifier::external_body]
fn gunzip(data: &[u8]) -> (r: (Vec<u8>, bool))
    ensures
        (r.0@, r.1) == gunzip_result(data@),
{
    let mut out: Vec<u8> = Vec::new();
    let ok = std::io::Read::read_to_end(&mut flate2::read::GzDecoder::new(data), &mut out).is_ok();
    (out, ok)
}

/// The name stored in a world's gzip-compressed `level.dat`; none when it
/// cannot be read or holds no name. The tag is read from the bytes that
/// decompress, so a damaged end of the stream past the tag does not matter.
pub fn level_name_from_gzip(data: &[u8]) -> (r: Option<String>)
    ensures
        match nbt_root(gunzip_result(data@).0) {
            Ok((_, root)) => match level_name_spec(root) {
                Some(n) => r matches Some(s) && s@ == n,
                None => r is None,
            },
            Err(_) => r is None,
        },
{
    let (raw, _) = gunzip(data);
    match parse_nbt(raw.as_slice()) {
        Ok((_, root)) => level_name_from_nbt(&root),
        Err(_) => None,
    }
}

/// The text of a log file from its bytes: gzip-decompressed first when its
/// name ends with `.gz`; none when it cannot be decompressed or is not
/// UTF-8.
pub fn decode_log(name: &str, raw: Vec<u8>) -> (r: Option<String>)
    ensures
        match r {
            Some(s) => if is_suffix(".gz"@, name@) {
                gunzip_result(raw@).1 && utf8_decode_result(gunzip_result(raw@).0) == Some(s@)
            } else {
                utf8_decode_result(raw@) == Some(s@)
            },
            None => if is_suffix(".gz"@, name@) {
                gunzip_result(raw@).1 ==> utf8_decode_result(gunzip_result(raw@).0) is None
            } else {
                utf8_decode_result(raw@) is None
            },
        },
{
    if str_ends_with(name, ".gz") {
        let (d, ok) = gunzip(raw.as_slice());
        if ok {
            utf8_decode(d.as_slice())
        } else {
            None
        }
    } else {
        utf8_decode(raw.as_slice())
    }
}

/// A folder an instance can take from elsewhere: the setting's label, the
/// configured folder (empty when not set) and the folder's name in the
/// instance.
pub struct CustomDir {
    pub label: String,
    pub path: String,
    pub dir_name: String,
}

/// The folders an instance can take from elsewhere, in the order they are
/// set up: worlds (`saves`), resource packs and shader packs.
pub fn custom_dirs(config: &InstanceConfig) -> (r: Vec<CustomDir>)
    ensures
        r@.len() == 3,
        r@[0].label@ == "World Save Path"@ && r@[0].path@ == config.world_path@ && r@[0].dir_name@ == "saves"@,
        r@[1].label@ == "Resource Pack Path"@ && r@[1].path@ == config.resource_pack@ && r@[1].dir_name@
            == "resourcepacks"@,
        r@[2].label@ == "Shader Pack Path"@ && r@[2].path@ == config.shader_pack@ && r@[2].dir_name@
            == "shaderpacks"@,
{
    let mut v: Vec<CustomDir> = Vec::new();
    v.push(
        CustomDir {
            label: String::from_str("World Save Path"),
            path: config.world_path.clone(),
            dir_name: String::from_str("saves"),
        },
    );
    v.push(
        CustomDir {
            label: String::from_str("Resource Pack Path"),
            path: config.resource_pack.clone(),
            dir_name: String::from_str("resourcepacks"),
        },
    );
    v.push(
        CustomDir {
            label: String::from_str("Shader Pack Path"),
            path: config.shader_pack.clone(),
            dir_name: String::from_str("shaderpacks"),
        },
    );
    v
}

/// What is found where an instance's folder should link to a chosen one.
#[derive(Debug, Clone, Copy, PartialEq, Eq, Structural)]
pub enum LinkState {
    /// Nothing there.
    Missing,
    /// Already a link that resolves to the chosen folder.
    LinksToTarget,
    /// A link elsewhere.
    OtherLink,
    /// A real, empty folder.
    EmptyDir,
    /// A real folder with something in it.
    NonEmptyDir,
    /// A file.
    File,
}

/// What to do for one folder.
#[derive(Debug, Clone, Copy, PartialEq, Eq, Structural)]
pub enum SyncStep {
    /// The setting is empty: leave the instance alone.
    Skip,
    /// The chosen folder is missing or not a folder: fail.
    NotAFolder,
    /// The link is already right.
    Keep,
    /// Create the link.
    Create,
    /// Remove the old link, then create the link.
    ReplaceLink,
    /// Remove the empty folder, then create the link.
    ReplaceEmptyDir,
    /// Remove the file, then create the link.
    ReplaceFile,
    /// The instance's folder holds files: fail rather than delete them.
    Refuse,
}

/// The step for one folder: nothing for an empty setting; an error for a
/// missing chosen folder; otherwise make the instance's entry a link to it,
/// replacing a wrong link, an empty folder or a file, but never a folder
/// with something in it.
pub open spec fn sync_step_spec(setting_empty: bool, target_is_dir: bool, state: LinkState) -> SyncStep {
    if setting_empty {
        SyncStep::Skip
    } else if !target_is_dir {
        SyncStep::NotAFolder
    } else {
        match state {
            LinkState::Missing => SyncStep::Create,
            LinkState::LinksToTarget => SyncStep::Keep,
            LinkState::OtherLink => SyncStep::ReplaceLink,
            LinkState::EmptyDir => SyncStep::ReplaceEmptyDir,
            LinkState::NonEmptyDir => SyncStep::Refuse,
            LinkState::File => SyncStep::ReplaceFile,
        }
    }
}

/// Decides what to do for one folder an instance takes from elsewhere.
pub fn sync_step(setting_empty: bool, target_is_dir: bool, state: LinkState) -> (r: SyncStep)
    ensures
        r == sync_step_spec(setting_empty, target_is_dir, state),
{
    if setting_empty {
        SyncStep::Skip
    } else if !target_is_dir {
        SyncStep::NotAFolder
    } else {
        match state {
            LinkState::Missing => SyncStep::Create,
            LinkState::LinksToTarget => SyncStep::Keep,
            LinkState::OtherLink => SyncStep::ReplaceLink,
            LinkState::EmptyDir => SyncStep::ReplaceEmptyDir,
            LinkState::NonEmptyDir => SyncStep::Refuse,
            LinkState::File => SyncStep::ReplaceFile,
        }
    }
}

/// A folder with content is never deleted, and a link that is right is
/// left as it is (so setting up twice changes nothing the second time).
pub proof fn lemma_sync_step_safe(setting_empty: bool, target_is_dir: bool, state: LinkState)
    ensures
        state == LinkState::NonEmptyDir ==> sync_step_spec(setting_empty, target_is_dir, state) != SyncStep::ReplaceEmptyDir
            && sync_step_spec(setting_empty, target_is_dir, state) != SyncStep::ReplaceFile
            && sync_step_spec(setting_empty, target_is_dir, state) != SyncStep::ReplaceLink,
        state == LinkState::LinksToTarget ==> sync_step_spec(setting_empty, target_is_dir, state) == SyncStep::Keep
            || sync_step_spec(setting_empty, target_is_dir, state) == SyncStep::Skip
            || sync_step_spec(setting_empty, target_is_dir, state) == SyncStep::NotAFolder,
{
}

/// What to do for one folder an instance takes from elsewhere.
pub struct SyncAction {
    /// The setting's label.
    pub label: String,
    /// The chosen folder.
    pub target: String,
    /// The instance's entry that should link to it.
    pub link: String,
    /// The entry's name in the instance.
    pub dir_name: String,
    pub step: SyncStep,
}

/// The steps that set up the folders an instance takes from elsewhere
/// (worlds, resource packs, shader packs, in that order), given for each
/// whether the chosen folder is a folder and what is now at the instance's
/// entry. They are carried out in order; the first failing step stops the
/// rest.
pub fn sync_custom_dirs(instance_dir: &str, config: &InstanceConfig, observed: &Vec<(bool, LinkState)>) -> (r: Vec<SyncAction>)
    requires
        observed@.len() == 3,
    ensures
        r@.len() == 3,
        r@[0].label@ == "World Save Path"@ && r@[0].target@ == config.world_path@ && r@[0].dir_name@ == "saves"@,
        r@[1].label@ == "Resource Pack Path"@ && r@[1].target@ == config.resource_pack@ && r@[1].dir_name@
            == "resourcepacks"@,
        r@[2].label@ == "Shader Pack Path"@ && r@[2].target@ == config.shader_pack@ && r@[2].dir_name@
            == "shaderpacks"@,
        forall|k: int|
            0 <= k < 3 ==> (#[trigger] r@[k]).link@ == crate::paths::path_join(instance_dir@, r@[k].dir_name@)
                && r@[k].step == sync_step_spec(r@[k].target@.len() == 0, observed@[k].0, observed@[k].1),
{
    let dirs = custom_dirs(config);
    let mut out: Vec<SyncAction> = Vec::new();
    let mut i: usize = 0;
    while i < 3
        invariant
            i <= 3,
            dirs@.len() == 3,
            observed@.len() == 3,
            out@.len() == i,
            forall|k: int|
                0 <= k < i ==> (#[trigger] out@[k]).label@ == dirs@[k].label@ && out@[k].target@ == dirs@[k].path@
                    && out@[k].dir_name@ == dirs@[k].dir_name@ && out@[k].link@ == crate::paths::path_join(
                    instance_dir@,
                    dirs@[k].dir_name@,
                ) && out@[k].step == sync_step_spec(dirs@[k].path@.len() == 0, observed@[k].0, observed@[k].1),
        decreases 3 - i,
    {
        let d = &dirs[i];
        let (is_dir, state) = observed[i];
        let step = sync_step(d.path.unicode_len() == 0, is_dir, state);
        out.push(
            SyncAction {
                label: d.label.clone(),
                target: d.path.clone(),
                link: crate::paths::join(instance_dir, d.dir_name.as_str()),
                dir_name: d.dir_name.clone(),
                step,
            },
        );
        i = i + 1;
    }
    out
}

/// `a`, `b`, `c`, `d` and `e` one after another.
fn concat5(a: &str, b: &str, c: &str, d: &str, e: &str) -> (r: String)
    ensures
        r@ == a@ + b@ + c@ + d@ + e@,
{
    let mut v = chars_of(a);
    crate::text::push_str_chars(&mut v, b);
    crate::text::push_str_chars(&mut v, c);
    crate::text::push_str_chars(&mut v, d);
    crate::text::push_str_chars(&mut v, e);
    string_of(v.as_slice())
}

/// The error for a chosen folder that is missing.
pub fn not_a_folder_message(label: &str, path: &str) -> (r: String)
    ensures
        r@ == label@ + " does not exist or is not a folder: "@ + path@,
{
    proof {
        reveal_strlit("");
    }
    let r = concat5(label, " does not exist or is not a folder: ", path, "", "");
    assert(r@ =~= label@ + " does not exist or is not a folder: "@ + path@);
    r
}

/// The error for an instance folder that holds files.
pub fn refuse_message(dir_name: &str, link: &str, label: &str) -> (r: String)
    ensures
        r@ == dir_name@ + " already contains files at "@ + link@ + "; move or remove them before setting "@ + label@,
{
    concat5(dir_name, " already contains files at ", link, "; move or remove them before setting ", label)
}

/// Whether an extension (already in lower case) is that of a screenshot.
pub open spec fn is_screenshot_ext(ext: Seq<char>) -> bool {
    ext == "png"@ || ext == "jpg"@ || ext == "jpeg"@
}

/// Whether a file extension is that of a screenshot, ignoring case.
pub fn screenshot_ext(ext: &str) -> (b: bool)
    ensures
        b == is_screenshot_ext(unicode_lowercase(ext@)),
{
    let l = to_lowercase(ext);
    str_eq(l.as_str(), "png") || str_eq(l.as_str(), "jpg") || str_eq(l.as_str(), "jpeg")
}

/// `x` placed into `s` after every entry not older than it.
pub open spec fn insert_newest<T>(s: Seq<(T, u128)>, x: (T, u128)) -> Seq<(T, u128)>
    decreases s.len(),
{
    if s.len() == 0 {
        seq![x]
    } else if !(s.last().1 < x.1) {
        s.push(x)
    } else {
        insert_newest(s.drop_last(), x).push(s.last())
    }
}

/// Files newest first; files of the same time keep their order.
pub open spec fn sort_newest<T>(s: Seq<(T, u128)>) -> Seq<(T, u128)>
    decreases s.len(),
{
    if s.len() == 0 {
        Seq::empty()
    } else {
        insert_newest(sort_newest(s.drop_last()), s.last())
    }
}

proof fn lemma_insert_newest_split<T>(s: Seq<(T, u128)>, x: (T, u128), j: int)
    requires
        0 <= j <= s.len(),
        forall|k: int| j <= k < s.len() ==> (#[trigger] s[k]).1 < x.1,
    ensures
        insert_newest(s, x) == insert_newest(s.take(j), x) + s.skip(j),
    decreases s.len(),
{
    if j == s.len() {
        assert(s.take(j) =~= s);
        assert(insert_newest(s.take(j), x) + s.skip(j) =~= insert_newest(s, x));
    } else {
        assert(s[s.len() - 1] == s.last());
        lemma_insert_newest_split(s.drop_last(), x, j);
        assert(s.drop_last().take(j) =~= s.take(j));
        assert(s.drop_last().skip(j).push(s.last()) =~= s.skip(j));
        assert(insert_newest(s, x) =~= insert_newest(s.take(j), x) + s.skip(j));
    }
}

/// The newest `limit` screenshots, newest first, from their names and times
/// of last change (nanoseconds since the epoch).
pub fn newest_screenshots(files: Vec<(String, u128)>, limit: usize) -> (r: Vec<String>)
    ensures
        r@.len() == (if sort_newest(files@).len() < limit { sort_newest(files@).len() } else { limit as nat }),
        forall|i: int| 0 <= i < r@.len() ==> #[trigger] r@[i] == sort_newest(files@)[i].0,
{
    let ghost orig = files@;
    let mut rest = files;
    let mut out: Vec<(String, u128)> = Vec::new();
    let ghost mut done: int = 0;
    while rest.len() > 0
        invariant
            0 <= done <= orig.len(),
            rest@.len() == orig.len() - done,
            rest@ == orig.skip(done),
            out@ == sort_newest(orig.take(done)),
        decreases rest.len(),
    {
        let ghost t = orig.take(done + 1);
        assert(t.drop_last() =~= orig.take(done));
        assert(t.last() == orig[done]);
        let ghost old_rest = rest@;
        let x = rest.remove(0);
        assert(rest@ =~= orig.skip(done + 1));
        let ghost s = out@;
        let mut j: usize = out.len();
        let mut stop = false;
        while j > 0 && !stop
            invariant
                j <= out@.len(),
                s == out@,
                forall|k: int| j <= k < s.len() ==> (#[trigger] s[k]).1 < x.1,
                stop ==> j > 0 && !(s[j - 1].1 < x.1),
            decreases j + if stop { 0int } else { 1int },
        {
            if out[j - 1].1 < x.1 {
                j = j - 1;
            } else {
                stop = true;
            }
        }
        proof {
            lemma_insert_newest_split(s, x, j as int);
            let tk = s.take(j as int);
            if tk.len() > 0 {
                assert(tk.last() == s[j - 1]);
            }
            assert(insert_newest(tk, x) =~= tk.push(x));
        }
        let ghost xv = x;
        out.insert(j, x);
        assert(out@ =~= s.take(j as int).push(xv) + s.skip(j as int));
        proof {
            done = done + 1;
        }
    }
    assert(orig.take(done) =~= orig);
    let mut names: Vec<String> = Vec::new();
    let n: usize = if out.len() < limit { out.len() } else { limit };
    let mut i: usize = 0;
    while i < n
        invariant
            i <= n <= out@.len(),
            n == (if out@.len() < limit { out@.len() } else { limit as nat }),
            names@.len() == i,
            forall|k: int| 0 <= k < i ==> #[trigger] names@[k] == out@[k].0,
        decreases n - i,
    {
        names.push(out[i].0.clone());
        i = i + 1;
    }
    names
}

} // verus!
