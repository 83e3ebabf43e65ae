//! Paths as strings with `/` separators, and the platform the launcher
//! runs on.
use vstd::prelude::*;
use crate::text::{chars_of, extend_chars, string_of};

verus! {

/// The path `part` joined onto `base` (std's `PathBuf::push` on Unix): an
/// absolute `part` replaces `base`; otherwise one `/` separates them.
pub open spec fn path_join(base: Seq<char>, part: Seq<char>) -> Seq<char> {
    if part.len() > 0 && part[0] == '/' {
        part
    } else if base.len() == 0 {
        part
    } else if base.last() == '/' {
        base + part
    } else {
        base + seq!['/'] + part
    }
}

/// Joins `part` onto `base`, on characters.
pub fn join_chars(b: &[char], p: &[char]) -> (r: Vec<char>)
    ensures
        r@ == path_join(b@, p@),
{
    if p.len() > 0 && p[0] == '/' {
        let mut out: Vec<char> = Vec::new();
        extend_chars(&mut out, p);
        assert(out@ =~= p@);
        return out;
    }
    let mut out: Vec<char> = Vec::new();
    extend_chars(&mut out, b);
    if b.len() > 0 && b[b.len() - 1] != '/' {
        out.push('/');
    }
    extend_chars(&mut out, p);
    assert(out@ =~= path_join(b@, p@));
    out
}

/// Joins `part` onto `base`.
pub fn join(base: &str, part: &str) -> (r: String)
    ensures
        r@ == path_join(base@, part@),
{
    let b = chars_of(base);
    let p = chars_of(part);
    let out = join_chars(b.as_slice(), p.as_slice());
    string_of(out.as_slice())
}

/// `comps` pushed one after another onto `base` (what collecting path
/// components into a `PathBuf` gives).
pub open spec fn push_all(base: Seq<char>, comps: Seq<Seq<char>>) -> Seq<char>
    decreases comps.len(),
{
    if comps.len() == 0 {
        base
    } else {
        push_all(path_join(base, comps[0]), comps.drop_first())
    }
}

/// The components collected into one path.
pub fn collect_path(comps: &Vec<Vec<char>>) -> (r: Vec<char>)
    ensures
        r@ == push_all(Seq::empty(), crate::text::views(comps@)),
{
    let mut out: Vec<char> = Vec::new();
    let mut i: usize = 0;
    let ghost all = crate::text::views(comps@);
    assert(all.skip(0) =~= all);
    while i < comps.len()
        invariant
            i <= comps@.len(),
            all == crate::text::views(comps@),
            push_all(Seq::empty(), all) == push_all(out@, all.skip(i as int)),
        decreases comps.len() - i,
    {
        assert(all.skip(i as int)[0] == comps@[i as int]@);
        assert(all.skip(i as int).drop_first() =~= all.skip(i + 1));
        out = join_chars(out.as_slice(), comps[i].as_slice());
        i = i + 1;
    }
    assert(all.skip(i as int) =~= Seq::<Seq<char>>::empty());
    out
}

/// Joins two parts onto `base`, one after the other.
pub fn join2(base: &str, a: &str, b: &str) -> (r: String)
    ensures
        r@ == path_join(path_join(base@, a@), b@),
{
    let t = join(base, a);
    join(t.as_str(), b)
}

/// The operating system, as std names it in `std::env::consts::OS`.
#[derive(Debug, Clone, Copy, PartialEq, Eq, Structural)]
pub enum HostOs {
    Windows,
    MacOs,
    Linux,
    Other,
}

impl HostOs {
    /// The system for std's name of it (`"windows"`, `"macos"`, `"linux"`).
    pub fn from_name(name: &str) -> (r: HostOs)
        ensures
            r == host_os_of(name@),
    {
        if crate::text::str_eq(name, "windows") {
            HostOs::Windows
        } else if crate::text::str_eq(name, "macos") {
            HostOs::MacOs
        } else if crate::text::str_eq(name, "linux") {
            HostOs::Linux
        } else {
            HostOs::Other
        }
    }
}

/// The system std's name stands for.
pub open spec fn host_os_of(name: Seq<char>) -> HostOs {
    if name == "windows"@ {
        HostOs::Windows
    } else if name == "macos"@ {
        HostOs::MacOs
    } else if name == "linux"@ {
        HostOs::Linux
    } else {
        HostOs::Other
    }
}

/// What the launcher needs to know of the machine it runs on.
#[derive(Debug, Clone)]
pub struct Platform {
    pub os: HostOs,
    /// std's name of the CPU architecture (`std::env::consts::ARCH`).
    pub arch: String,
    /// The operating system's release, as the system reports it.
    pub os_version: String,
    /// Whether pointers are 64 bits wide.
    pub pointer_width_64: bool,
    /// This launcher's version.
    pub launcher_version: String,
}

} // verus!
