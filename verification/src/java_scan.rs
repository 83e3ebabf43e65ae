//! Finding the Java installations of the system: where to look, what the
//! executable is called, and the list that comes out (sorted, each once).
use vstd::prelude::*;
use crate::order::{lemma_lex_less_total, lemma_lex_less_trans, lex_less, lex_lt};
use crate::paths::{join, path_join, HostOs};
use crate::text::{chars_of, contains_seq, str_contains, str_eq, str_views};

verus! {

/// The Java executable's name: `javaw.exe` on Windows, `java` elsewhere.
pub open spec fn java_exe_spec(os: HostOs) -> Seq<char> {
    if os == HostOs::Windows {
        "javaw.exe"@
    } else {
        "java"@
    }
}

/// The Java executable's name on a system.
pub fn java_exe_name(os: HostOs) -> (r: &'static str)
    ensures
        r@ == java_exe_spec(os),
{
    if os == HostOs::Windows {
        "javaw.exe"
    } else {
        "java"
    }
}

/// Where a Java installation under `dir` keeps its executable:
/// `<dir>[/<sub>]/bin/<exe>`.
pub open spec fn java_candidate_spec(dir: Seq<char>, sub: Seq<char>, os: HostOs) -> Seq<char> {
    let base = if sub.len() == 0 {
        dir
    } else {
        path_join(dir, sub)
    };
    path_join(path_join(base, "bin"@), java_exe_spec(os))
}

/// Where a Java installation under `dir` keeps its executable.
pub fn java_candidate(dir: &str, sub: &str, os: HostOs) -> (r: String)
    ensures
        r@ == java_candidate_spec(dir@, sub@, os),
{
    let base: String = if sub.unicode_len() == 0 {
        String::from_str(dir)
    } else {
        join(dir, sub)
    };
    let b = join(base.as_str(), "bin");
    join(b.as_str(), java_exe_name(os))
}

/// Strictly ascending: each entry comes before every later one.
pub open spec fn strictly_sorted(s: Seq<Seq<char>>) -> bool {
    forall|i: int, j: int| 0 <= i < j < s.len() ==> lex_less(#[trigger] s[i], #[trigger] s[j])
}

/// The found paths in ascending order, each once (std's `sort` then
/// `dedup`): exactly the paths found, strictly ascending.
pub fn sort_dedup(list: &Vec<String>) -> (r: Vec<String>)
    ensures
        strictly_sorted(str_views(r@)),
        forall|x: Seq<char>| str_views(r@).contains(x) <==> str_views(list@).contains(x),
{
    let ghost all = str_views(list@);
    let mut out: Vec<String> = Vec::new();
    let mut i: usize = 0;
    while i < list.len()
        invariant
            i <= list@.len(),
            all == str_views(list@),
            strictly_sorted(str_views(out@)),
            forall|x: Seq<char>| str_views(out@).contains(x) <==> all.take(i as int).contains(x),
        decreases list.len() - i,
    {
        let ghost s = str_views(out@);
        let xc = chars_of(list[i].as_str());
        let ghost x = all[i as int];
        assert(x == list@[i as int]@);
        let mut j: usize = 0;
        let mut stop = false;
        while j < out.len() && !stop
            invariant
                j <= out@.len(),
                s == str_views(out@),
                xc@ == x,
                forall|k: int| 0 <= k < j ==> lex_less(#[trigger] s[k], x),
                stop ==> j < out@.len() && !lex_less(s[j as int], x),
            decreases out@.len() - j + if stop { 0int } else { 1int },
        {
            let oc = chars_of(out[j].as_str());
            assert(s[j as int] == out@[j as int]@);
            if lex_lt(oc.as_slice(), xc.as_slice()) {
                j = j + 1;
            } else {
                stop = true;
            }
        }
        let ghost t1 = all.take(i + 1);
        let ghost t0 = all.take(i as int);
        proof {
            assert forall|y: Seq<char>| t1.contains(y) <==> (t0.contains(y) || y == x) by {
                if t1.contains(y) {
                    let k = choose|k: int| 0 <= k < t1.len() && t1[k] == y;
                    if k < i {
                        assert(t0[k] == y);
                    }
                }
                if t0.contains(y) {
                    let k = choose|k: int| 0 <= k < t0.len() && t0[k] == y;
                    assert(t1[k] == y);
                }
                if y == x {
                    assert(t1[i as int] == y);
                }
            }
        }
        let present = j < out.len() && str_eq(out[j].as_str(), list[i].as_str());
        if present {
            assert(s[j as int] == x);
        } else {
            if j < out.len() {
                proof {
                    lemma_lex_less_total(s[j as int], x);
                }
                assert(lex_less(x, s[j as int]));
            }
            let ghost xv = x;
            out.insert(j, list[i].clone());
            let ghost ns = str_views(out@);
            assert(ns =~= s.take(j as int).push(xv) + s.skip(j as int));
            assert forall|a: int, b: int| 0 <= a < b < ns.len() implies lex_less(#[trigger] ns[a], #[trigger] ns[b]) by {
                if b < j {
                    assert(ns[a] == s[a] && ns[b] == s[b]);
                } else if b == j {
                    assert(ns[a] == s[a]);
                } else if a == j {
                    assert(ns[b] == s[b - 1]);
                    if b - 1 > j {
                        assert(lex_less(s[j as int], s[b - 1]));
                        lemma_lex_less_trans(x, s[j as int], s[b - 1]);
                    }
                } else if a < j {
                    assert(ns[a] == s[a] && ns[b] == s[b - 1]);
                    assert(lex_less(s[a], s[b - 1]));
                } else {
                    assert(ns[a] == s[a - 1] && ns[b] == s[b - 1]);
                }
            }
            assert forall|y: Seq<char>| ns.contains(y) <==> (s.contains(y) || y == xv) by {
                if ns.contains(y) {
                    let k = choose|k: int| 0 <= k < ns.len() && ns[k] == y;
                    if k < j {
                        assert(s[k] == y);
                    } else if k > j {
                        assert(s[k - 1] == y);
                    }
                }
                if s.contains(y) {
                    let k = choose|k: int| 0 <= k < s.len() && s[k] == y;
                    if k < j {
                        assert(ns[k] == y);
                    } else {
                        assert(ns[k + 1] == y);
                    }
                }
                if y == xv {
                    assert(ns[j as int] == y);
                }
            }
        }
        i = i + 1;
    }
    assert(all.take(i as int) =~= all);
    out
}

/// One place to look for Java.
pub enum SearchDir {
    /// This exact executable.
    Exact(String),
    /// Every subfolder of the folder, with the given path below it.
    Children(String, String),
    /// Homebrew's folder of installed packages: those whose name holds
    /// `jdk` or `java`.
    BrewOpt(String),
}

/// The plain value of a place to look.
pub enum SearchSpec {
    Exact(Seq<char>),
    Children(Seq<char>, Seq<char>),
    BrewOpt(Seq<char>),
}

/// The plain value of a place to look.
pub open spec fn search_view(d: SearchDir) -> SearchSpec {
    match d {
        SearchDir::Exact(p) => SearchSpec::Exact(p@),
        SearchDir::Children(b, sub) => SearchSpec::Children(b@, sub@),
        SearchDir::BrewOpt(b) => SearchSpec::BrewOpt(b@),
    }
}

/// The places searched for Java, in order: `$JAVA_HOME`; then by system
/// the usual install folders (macOS: the JavaVirtualMachines folders and
/// Homebrew; Linux: `/usr/lib/jvm`, `/usr/java`, `/opt/jdk`, `/opt/java`
/// and `/usr/bin/java`; Windows: the vendors' folders under Program
/// Files); then the SDKMAN, asdf and IntelliJ folders of the home folder.
pub open spec fn search_dirs_spec(os: HostOs, java_home: Option<Seq<char>>, home: Option<Seq<char>>) -> Seq<SearchSpec> {
    let exe = java_exe_spec(os);
    let first = match java_home {
        Some(h) => seq![SearchSpec::Exact(path_join(path_join(h, "bin"@), exe))],
        None => Seq::empty(),
    };
    let by_os = if os == HostOs::MacOs {
        seq![SearchSpec::Children("/Library/Java/JavaVirtualMachines"@, "Contents/Home"@)] + match home {
            Some(h) => seq![SearchSpec::Children(path_join(h, "Library/Java/JavaVirtualMachines"@), "Contents/Home"@)],
            None => Seq::empty(),
        } + seq![SearchSpec::BrewOpt("/opt/homebrew/opt"@), SearchSpec::BrewOpt("/usr/local/opt"@)]
    } else if os == HostOs::Linux {
        seq![
            SearchSpec::Children("/usr/lib/jvm"@, ""@),
            SearchSpec::Children("/usr/java"@, ""@),
            SearchSpec::Children("/opt/jdk"@, ""@),
            SearchSpec::Children("/opt/java"@, ""@),
            SearchSpec::Exact("/usr/bin/java"@),
        ]
    } else if os == HostOs::Windows {
        seq![
            SearchSpec::Children("C:\\Program Files\\Java"@, ""@),
            SearchSpec::Children("C:\\Program Files (x86)\\Java"@, ""@),
            SearchSpec::Children("C:\\Program Files\\Eclipse Adoptium"@, ""@),
            SearchSpec::Children("C:\\Program Files\\Eclipse Foundation"@, ""@),
            SearchSpec::Children("C:\\Program Files\\Microsoft"@, ""@),
            SearchSpec::Children("C:\\Program Files\\Amazon Corretto"@, ""@),
            SearchSpec::Children("C:\\Program Files\\Zulu"@, ""@),
            SearchSpec::Children("C:\\Program Files\\BellSoft"@, ""@),
        ]
    } else {
        Seq::empty()
    };
    let by_home = match home {
        Some(h) => seq![
            SearchSpec::Children(path_join(h, ".sdkman/candidates/java"@), ""@),
            SearchSpec::Children(path_join(h, ".asdf/installs/java"@), ""@),
            SearchSpec::Children(path_join(h, ".jdks"@), ""@),
        ],
        None => Seq::empty(),
    };
    first + by_os + by_home
}

/// The places searched for Java, from `$JAVA_HOME` and the home folder.
pub fn java_search_dirs(os: HostOs, java_home: &Option<String>, home: &Option<String>) -> (r: Vec<SearchDir>)
    ensures
        r@.map_values(|d: SearchDir| search_view(d)) == search_dirs_spec(
            os,
            match java_home {
                Some(h) => Some(h@),
                None => None,
            },
            match home {
                Some(h) => Some(h@),
                None => None,
            },
        ),
{
    proof {
        reveal_strlit("");
    }
    let exe = java_exe_name(os);
    let mut out: Vec<SearchDir> = Vec::new();
    if let Some(h) = java_home {
        let b = join(h.as_str(), "bin");
        out.push(SearchDir::Exact(join(b.as_str(), exe)));
    }
    if os == HostOs::MacOs {
        out.push(SearchDir::Children(String::from_str("/Library/Java/JavaVirtualMachines"), String::from_str("Contents/Home")));
        if let Some(h) = home {
            out.push(SearchDir::Children(join(h.as_str(), "Library/Java/JavaVirtualMachines"), String::from_str("Contents/Home")));
        }
        out.push(SearchDir::BrewOpt(String::from_str("/opt/homebrew/opt")));
        out.push(SearchDir::BrewOpt(String::from_str("/usr/local/opt")));
    } else if os == HostOs::Linux {
        out.push(SearchDir::Children(String::from_str("/usr/lib/jvm"), String::from_str("")));
        out.push(SearchDir::Children(String::from_str("/usr/java"), String::from_str("")));
        out.push(SearchDir::Children(String::from_str("/opt/jdk"), String::from_str("")));
        out.push(SearchDir::Children(String::from_str("/opt/java"), String::from_str("")));
        out.push(SearchDir::Exact(String::from_str("/usr/bin/java")));
    } else if os == HostOs::Windows {
        out.push(SearchDir::Children(String::from_str("C:\\Program Files\\Java"), String::from_str("")));
        out.push(SearchDir::Children(String::from_str("C:\\Program Files (x86)\\Java"), String::from_str("")));
        out.push(SearchDir::Children(String::from_str("C:\\Program Files\\Eclipse Adoptium"), String::from_str("")));
        out.push(SearchDir::Children(String::from_str("C:\\Program Files\\Eclipse Foundation"), String::from_str("")));
        out.push(SearchDir::Children(String::from_str("C:\\Program Files\\Microsoft"), String::from_str("")));
        out.push(SearchDir::Children(String::from_str("C:\\Program Files\\Amazon Corretto"), String::from_str("")));
        out.push(SearchDir::Children(String::from_str("C:\\Program Files\\Zulu"), String::from_str("")));
        out.push(SearchDir::Children(String::from_str("C:\\Program Files\\BellSoft"), String::from_str("")));
    }
    if let Some(h) = home {
        out.push(SearchDir::Children(join(h.as_str(), ".sdkman/candidates/java"), String::from_str("")));
        out.push(SearchDir::Children(join(h.as_str(), ".asdf/installs/java"), String::from_str("")));
        out.push(SearchDir::Children(join(h.as_str(), ".jdks"), String::from_str("")));
    }
    assert(out@.map_values(|d: SearchDir| search_view(d)) =~= search_dirs_spec(
        os,
        match java_home {
            Some(h) => Some(h@),
            None => None,
        },
        match home {
            Some(h) => Some(h@),
            None => None,
        },
    ));
    out
}

/// Whether a Homebrew package may be a Java: its name holds `jdk` or `java`.
pub open spec fn brew_java_name(name: Seq<char>) -> bool {
    contains_seq(name, "jdk"@) || contains_seq(name, "java"@)
}

/// The executables to try in a Homebrew package folder: none unless its
/// name holds `jdk` or `java`; else `<pkg>/bin/<exe>` and the one inside
/// its bundled `openjdk.jdk`.
pub fn brew_candidates(pkg_dir: &str, name: &str, os: HostOs) -> (r: Vec<String>)
    ensures
        str_views(r@) == (if brew_java_name(name@) {
            seq![
                path_join(path_join(pkg_dir@, "bin"@), java_exe_spec(os)),
                path_join(path_join(pkg_dir@, "libexec/openjdk.jdk/Contents/Home/bin"@), java_exe_spec(os)),
            ]
        } else {
            Seq::empty()
        }),
{
    let mut out: Vec<String> = Vec::new();
    if str_contains(name, "jdk") || str_contains(name, "java") {
        let exe = java_exe_name(os);
        let b = join(pkg_dir, "bin");
        out.push(join(b.as_str(), exe));
        let l = join(pkg_dir, "libexec/openjdk.jdk/Contents/Home/bin");
        out.push(join(l.as_str(), exe));
    }
    assert(str_views(out@) =~= (if brew_java_name(name@) {
        seq![
            path_join(path_join(pkg_dir@, "bin"@), java_exe_spec(os)),
            path_join(path_join(pkg_dir@, "libexec/openjdk.jdk/Contents/Home/bin"@), java_exe_spec(os)),
        ]
    } else {
        Seq::empty()
    }));
    out
}

} // verus!
