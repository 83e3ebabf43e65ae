//! Hand-over of deep links from a second launch to the running launcher:
//! where the socket lies, which arguments and lines are deep links.
use vstd::prelude::*;
use crate::paths::{join, path_join, HostOs};
use crate::text::{
    chars_of, decimal, decimal_string, is_prefix, lines_of, lines_spec, push_str_chars,
    str_starts_with, str_views, string_of, utf8_decode, utf8_decode_result,
};

verus! {

/// What every deep link of the launcher starts with.
pub const DEEPLINK_PREFIX: &'static str = "voxelruler://";

/// The socket's file name.
pub const SOCK_FILE: &'static str = "voxelruler_ipc.sock";

/// The named pipe used on Windows.
pub const PIPE_NAME: &'static str = "\\\\.\\pipe\\voxelruler_ipc";

/// Where the socket lies: on macOS in `$TMPDIR` (else `/tmp`); elsewhere in
/// `$XDG_RUNTIME_DIR` when set, else on Linux `/tmp/voxelruler_ipc_<uid>.sock`
/// when the user id is known, else `/tmp/voxelruler_ipc.sock`.
pub open spec fn sock_path_spec(os: HostOs, tmpdir: Option<Seq<char>>, xdg: Option<Seq<char>>, uid: Option<u32>) -> Seq<char> {
    if os == HostOs::MacOs {
        path_join(
            match tmpdir {
                Some(t) => t,
                None => "/tmp"@,
            },
            SOCK_FILE@,
        )
    } else {
        match xdg {
            Some(d) => path_join(d, SOCK_FILE@),
            None => if os == HostOs::Linux && uid is Some {
                "/tmp/voxelruler_ipc_"@ + decimal(uid->0 as nat) + ".sock"@
            } else {
                "/tmp/voxelruler_ipc.sock"@
            },
        }
    }
}

/// The view of an optional string.
pub open spec fn opt_str(o: Option<String>) -> Option<Seq<char>> {
    match o {
        Some(s) => Some(s@),
        None => None,
    }
}

/// Where the socket lies, from `$TMPDIR`, `$XDG_RUNTIME_DIR` and the user id.
pub fn sock_path_from(os: HostOs, tmpdir: Option<String>, xdg_runtime_dir: Option<String>, uid: Option<u32>) -> (r: String)
    ensures
        r@ == sock_path_spec(os, opt_str(tmpdir), opt_str(xdg_runtime_dir), uid),
{
    if os == HostOs::MacOs {
        let base: String = match tmpdir {
            Some(t) => t,
            None => String::from_str("/tmp"),
        };
        return join(base.as_str(), SOCK_FILE);
    }
    match xdg_runtime_dir {
        Some(d) => join(d.as_str(), SOCK_FILE),
        None => {
            if os == HostOs::Linux {
                if let Some(u) = uid {
                    let mut v = chars_of("/tmp/voxelruler_ipc_");
                    let n = decimal_string(u as u64);
                    push_str_chars(&mut v, n.as_str());
                    push_str_chars(&mut v, ".sock");
                    return string_of(v.as_slice());
                }
            }
            String::from_str("/tmp/voxelruler_ipc.sock")
        },
    }
}

/// Index of the first argument after the program's own name that is a
/// deep link.
pub open spec fn first_deeplink_index(args: Seq<Seq<char>>, from: int) -> Option<int>
    decreases args.len() - from,
{
    if from >= args.len() {
        None
    } else if is_prefix(DEEPLINK_PREFIX@, args[from]) {
        Some(from)
    } else {
        first_deeplink_index(args, from + 1)
    }
}

/// The first deep link among the command-line arguments (the program's own
/// name, the first argument, is not looked at).
pub fn first_deeplink_arg(args: &Vec<String>) -> (r: Option<String>)
    ensures
        match first_deeplink_index(str_views(args@), 1) {
            Some(i) => r matches Some(s) && s@ == args@[i]@,
            None => r is None,
        },
{
    let ghost a = str_views(args@);
    let mut i: usize = 1;
    while i < args.len()
        invariant
            1 <= i,
            a == str_views(args@),
            first_deeplink_index(a, 1) == first_deeplink_index(a, i as int),
        decreases args.len() - i,
    {
        assert(a[i as int] == args@[i as int]@);
        if str_starts_with(args[i].as_str(), DEEPLINK_PREFIX) {
            return Some(args[i].clone());
        }
        i = i + 1;
    }
    None
}

/// The deep links in data received on the socket: its lines that start
/// with the prefix, in order; none when the data is not UTF-8.
pub open spec fn deeplink_lines_spec(data: Seq<u8>) -> Seq<Seq<char>> {
    match utf8_decode_result(data) {
        Some(s) => lines_spec(s).filter(|l: Seq<char>| is_prefix(DEEPLINK_PREFIX@, l)),
        None => Seq::empty(),
    }
}

/// The deep links in data received on the socket.
pub fn deeplink_lines(data: &[u8]) -> (r: Vec<String>)
    ensures
        str_views(r@) == deeplink_lines_spec(data@),
{
    match utf8_decode(data) {
        Some(t) => deeplink_lines_of_text(t.as_str()),
        None => Vec::new(),
    }
}

/// The lines of decoded socket data that are deep links, in order.
pub fn deeplink_lines_of_text(text: &str) -> (r: Vec<String>)
    ensures
        str_views(r@) == lines_spec(text@).filter(|l: Seq<char>| is_prefix(DEEPLINK_PREFIX@, l)),
{
    let lines = lines_of(text);
    let ghost ls = str_views(lines@);
    let mut out: Vec<String> = Vec::new();
    let mut i: usize = 0;
    proof {
        reveal(Seq::filter);
    }
    assert(ls.take(0).filter(|l: Seq<char>| is_prefix(DEEPLINK_PREFIX@, l)) =~= Seq::<Seq<char>>::empty());
    assert(str_views(out@) =~= Seq::<Seq<char>>::empty());
    while i < lines.len()
        invariant
            i <= lines@.len(),
            ls == str_views(lines@),
            str_views(out@) == ls.take(i as int).filter(|l: Seq<char>| is_prefix(DEEPLINK_PREFIX@, l)),
        decreases lines.len() - i,
    {
        proof {
            reveal(Seq::filter);
        }
        let ghost t = ls.take(i + 1);
        assert(t.drop_last() =~= ls.take(i as int));
        assert(t.last() == lines@[i as int]@);
        if str_starts_with(lines[i].as_str(), DEEPLINK_PREFIX) {
            let ghost before = str_views(out@);
            out.push(lines[i].clone());
            assert(str_views(out@) =~= before.push(t.last()));
        }
        i = i + 1;
    }
    assert(ls.take(i as int) =~= ls);
    out
}

} // verus!
