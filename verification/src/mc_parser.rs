//! Turning a version description into a launch: library selection, rule
//! evaluation, argument templates and the JVM command line.
use vstd::prelude::*;
use crate::mc_types::{
    McFeatureRule, McLibrary, McOsRule, McRule, McRuleAction, McSpecificVersionDetail,
};
use crate::paths::{collect_path, join_chars, path_join, push_all, HostOs, Platform};
use crate::text::{
    assoc_find, assoc_index, chars_of, concat_chars, contains_seq, contains_slice, extend_chars,
    find_from, is_prefix, lemma_split_any_len, parse_i32, parse_i32_spec, parse_u32,
    parse_u32_spec, push_str_chars, replace_all, replace_spec, slice_eq, split_any,
    split_chars, splitn_char, splitn_spec, string_of, trim_chars, trim_spec, views,
};

verus! {

/// The jna version that old jna 5.x libraries are raised to on macOS.
pub const JNA_COMPAT_VERSION: &'static str = "5.13.0";

/// The view of an optional string.
pub open spec fn opt_view(o: Option<&str>) -> Option<Seq<char>> {
    match o {
        Some(s) => Some(s@),
        None => None,
    }
}

/// The jna artifact (`jna` or `jna-platform`) that a library of group
/// `net.java.dev.jna` and version 5.x with x < 13 names; `None` for any
/// other library.
pub open spec fn jna_bump_spec(name: Seq<char>) -> Option<Seq<char>> {
    let parts = split_any(name, seq![':']);
    if parts[0] != "net.java.dev.jna"@ || parts.len() < 2 {
        None
    } else if parts[1] != "jna"@ && parts[1] != "jna-platform"@ {
        None
    } else if parts.len() < 3 {
        None
    } else {
        let nums = split_any(parts[2], seq!['.']);
        match parse_u32_spec(nums[0]) {
            None => None,
            Some(major) => if nums.len() < 2 {
                None
            } else {
                match parse_u32_spec(nums[1]) {
                    None => None,
                    Some(minor) => if major == 5 && minor < 13 {
                        Some(parts[1])
                    } else {
                        None
                    },
                }
            },
        }
    }
}

/// If the library with maven coordinates `name` is a jna older than
/// [`JNA_COMPAT_VERSION`] within 5.x, the artifact to raise.
pub fn jna_needs_bump(name: &str) -> (r: Option<&'static str>)
    ensures
        opt_view(r) == jna_bump_spec(name@),
{
    let n = chars_of(name);
    let colon = [':'];
    assert(colon@ =~= seq![':']);
    let parts = split_chars(n.as_slice(), colon.as_slice());
    proof {
        lemma_split_any_len(name@, seq![':']);
    }
    let group = chars_of("net.java.dev.jna");
    if !slice_eq(parts[0].as_slice(), group.as_slice()) || parts.len() < 2 {
        return None;
    }
    let jna = chars_of("jna");
    let jna_platform = chars_of("jna-platform");
    let artifact: &'static str = if slice_eq(parts[1].as_slice(), jna.as_slice()) {
        "jna"
    } else if slice_eq(parts[1].as_slice(), jna_platform.as_slice()) {
        "jna-platform"
    } else {
        return None;
    };
    if parts.len() < 3 {
        return None;
    }
    let dot = ['.'];
    assert(dot@ =~= seq!['.']);
    let nums = split_chars(parts[2].as_slice(), dot.as_slice());
    proof {
        lemma_split_any_len(parts@[2]@, seq!['.']);
    }
    let major = match parse_u32(nums[0].as_slice()) {
        Some(v) => v,
        None => return None,
    };
    if nums.len() < 2 {
        return None;
    }
    let minor = match parse_u32(nums[1].as_slice()) {
        Some(v) => v,
        None => return None,
    };
    if major == 5 && minor < 13 {
        Some(artifact)
    } else {
        None
    }
}

/// Where the raised jna artifact lives under the libraries directory.
pub open spec fn jna_compat_rel_spec(artifact: Seq<char>) -> Seq<char> {
    "net/java/dev/jna/"@ + artifact + "/"@ + JNA_COMPAT_VERSION@ + "/"@ + artifact + "-"@
        + JNA_COMPAT_VERSION@ + ".jar"@
}

/// Relative path of the raised jna artifact.
pub fn jna_compat_rel_path(artifact: &str) -> (r: String)
    ensures
        r@ == jna_compat_rel_spec(artifact@),
{
    let mut out: Vec<char> = Vec::new();
    push_str_chars(&mut out, "net/java/dev/jna/");
    push_str_chars(&mut out, artifact);
    push_str_chars(&mut out, "/");
    push_str_chars(&mut out, JNA_COMPAT_VERSION);
    push_str_chars(&mut out, "/");
    push_str_chars(&mut out, artifact);
    push_str_chars(&mut out, "-");
    push_str_chars(&mut out, JNA_COMPAT_VERSION);
    push_str_chars(&mut out, ".jar");
    assert(out@ =~= jna_compat_rel_spec(artifact@));
    string_of(out.as_slice())
}

/// File name of a maven artifact: `artifact-version[-classifier].jar`.
pub open spec fn maven_file_name(parts: Seq<Seq<char>>) -> Seq<char> {
    if parts.len() >= 4 {
        parts[1] + "-"@ + parts[2] + "-"@ + parts[3] + ".jar"@
    } else {
        parts[1] + "-"@ + parts[2] + ".jar"@
    }
}

/// Path of a maven artifact from the (at most four) pieces of its
/// coordinates: the group's `.`-parts as directories, then artifact,
/// version and file name.
pub open spec fn maven_path_of(parts: Seq<Seq<char>>) -> Seq<char> {
    path_join(
        path_join(
            path_join(push_all(Seq::empty(), split_any(parts[0], seq!['.'])), parts[1]),
            parts[2],
        ),
        maven_file_name(parts),
    )
}

/// The relative path of the maven coordinates `group:artifact:version[:classifier]`,
/// or `None` with fewer than three pieces.
pub open spec fn maven_coord_spec(coord: Seq<char>) -> Option<Seq<char>> {
    let parts = splitn_spec(coord, ':', 4);
    if parts.len() < 3 {
        None
    } else {
        Some(maven_path_of(parts))
    }
}

/// Path of the coordinates' pieces.
pub fn maven_path_from_parts(parts: &Vec<Vec<char>>) -> (r: Vec<char>)
    requires
        parts@.len() >= 3,
    ensures
        r@ == maven_path_of(views(parts@)),
{
    let dot = ['.'];
    assert(dot@ =~= seq!['.']);
    let groups = split_chars(parts[0].as_slice(), dot.as_slice());
    let base = collect_path(&groups);
    let p1 = join_chars(base.as_slice(), parts[1].as_slice());
    let p2 = join_chars(p1.as_slice(), parts[2].as_slice());
    let mut file: Vec<char> = Vec::new();
    extend_chars(&mut file, parts[1].as_slice());
    push_str_chars(&mut file, "-");
    extend_chars(&mut file, parts[2].as_slice());
    if parts.len() >= 4 {
        push_str_chars(&mut file, "-");
        extend_chars(&mut file, parts[3].as_slice());
    }
    push_str_chars(&mut file, ".jar");
    assert(file@ =~= maven_file_name(views(parts@)));
    join_chars(p2.as_slice(), file.as_slice())
}

/// Relative path of a library from its maven coordinates.
pub fn maven_coord_to_path(coord: &str) -> (r: Option<String>)
    ensures
        match r {
            Some(p) => maven_coord_spec(coord@) == Some(p@),
            None => maven_coord_spec(coord@).is_none(),
        },
{
    let c = chars_of(coord);
    let parts = splitn_char(c.as_slice(), ':', 4);
    if parts.len() < 3 {
        return None;
    }
    let p = maven_path_from_parts(&parts);
    Some(string_of(p.as_slice()))
}

/// The classifier key of macOS arm64 natives.
pub const ARM64_NATIVES: &'static str = "natives-macos-arm64";

/// Whether an association list has an entry with key `k`.
pub open spec fn has_key<T>(m: Seq<(String, T)>, k: Seq<char>) -> bool {
    assoc_find(m, k).is_some()
}

/// Whether a library provides macOS arm64 natives, by its name or by a
/// classifier.
pub open spec fn lib_has_arm64(lib: McLibrary) -> bool {
    ||| contains_seq(lib.name@, ARM64_NATIVES@)
    ||| (lib.downloads matches Some(d) && d.classifiers matches Some(c) && has_key(
        c@,
        ARM64_NATIVES@,
    ))
}

/// Whether a version ships macOS arm64 natives (1.19 and later do).
pub open spec fn supports_arm64_spec(version: McSpecificVersionDetail) -> bool {
    exists|i: int| 0 <= i < version.libraries@.len() && lib_has_arm64(#[trigger] version.libraries@[i])
}

/// Whether one library provides macOS arm64 natives.
pub fn library_has_arm64(lib: &McLibrary) -> (b: bool)
    ensures
        b == lib_has_arm64(*lib),
{
    let key = chars_of(ARM64_NATIVES);
    let name = chars_of(lib.name.as_str());
    if contains_slice(name.as_slice(), key.as_slice()) {
        return true;
    }
    match &lib.downloads {
        Some(d) => match &d.classifiers {
            Some(c) => assoc_index(c, key.as_slice()).is_some(),
            None => false,
        },
        None => false,
    }
}

/// Whether the version provides macOS arm64 (Apple Silicon) natives.
pub fn version_supports_macos_arm64(version: &McSpecificVersionDetail) -> (b: bool)
    ensures
        b == supports_arm64_spec(*version),
{
    let mut i: usize = 0;
    while i < version.libraries.len()
        invariant
            i <= version.libraries@.len(),
            forall|j: int| 0 <= j < i ==> !lib_has_arm64(#[trigger] version.libraries@[j]),
        decreases version.libraries.len() - i,
    {
        if library_has_arm64(&version.libraries[i]) {
            return true;
        }
        i = i + 1;
    }
    false
}

/// The OS name that old-format natives tables use for the host.
pub open spec fn natives_os_key(os: HostOs) -> Option<Seq<char>> {
    match os {
        HostOs::Windows => Some("windows"@),
        HostOs::MacOs => Some("osx"@),
        HostOs::Linux => Some("linux"@),
        HostOs::Other => None,
    }
}

/// `"64"` or `"32"`, by the pointer width.
pub open spec fn arch_bits(p: Platform) -> Seq<char> {
    if p.pointer_width_64 {
        "64"@
    } else {
        "32"@
    }
}

/// The natives classifier key of a library on the host: from the
/// library's natives table (with `${arch}` replaced by the pointer width),
/// or, without a table, `natives-<os>` or else `natives-<os>-<bits>` if the
/// library has such a classifier.
pub open spec fn native_key_spec(lib: McLibrary, p: Platform) -> Option<Seq<char>> {
    match natives_os_key(p.os) {
        None => None,
        Some(osk) => match lib.natives {
            Some(n) => match assoc_find(n@, osk) {
                Some(v) => Some(replace_spec(v@, "${arch}"@, arch_bits(p))),
                None => None,
            },
            None => match lib.downloads {
                Some(d) => match d.classifiers {
                    Some(c) => if has_key(c@, "natives-"@ + osk) {
                        Some("natives-"@ + osk)
                    } else if has_key(c@, "natives-"@ + osk + "-"@ + arch_bits(p)) {
                        Some("natives-"@ + osk + "-"@ + arch_bits(p))
                    } else {
                        None
                    },
                    None => None,
                },
                None => None,
            },
        },
    }
}

/// The natives classifier key of a library on the host, if it has one.
pub fn native_classifier_key(lib: &McLibrary, platform: &Platform) -> (r: Option<String>)
    ensures
        match r {
            Some(k) => native_key_spec(*lib, *platform) == Some(k@),
            None => native_key_spec(*lib, *platform).is_none(),
        },
{
    let os_key: &str = match platform.os {
        HostOs::Windows => "windows",
        HostOs::MacOs => "osx",
        HostOs::Linux => "linux",
        HostOs::Other => return None,
    };
    let bits: &str = if platform.pointer_width_64 { "64" } else { "32" };
    let osk = chars_of(os_key);
    let bv = chars_of(bits);
    match &lib.natives {
        Some(n) => match assoc_index(n, osk.as_slice()) {
            Some(i) => {
                let v = chars_of(n[i].1.as_str());
                let pat = chars_of("${arch}");
                proof {
                    reveal_strlit("${arch}");
                }
                let r = replace_all(v.as_slice(), pat.as_slice(), bv.as_slice());
                Some(string_of(r.as_slice()))
            },
            None => None,
        },
        None => match &lib.downloads {
            Some(d) => match &d.classifiers {
                Some(c) => {
                    let mut k1: Vec<char> = Vec::new();
                    push_str_chars(&mut k1, "natives-");
                    extend_chars(&mut k1, osk.as_slice());
                    if assoc_index(c, k1.as_slice()).is_some() {
                        return Some(string_of(k1.as_slice()));
                    }
                    let mut k2 = k1;
                    push_str_chars(&mut k2, "-");
                    extend_chars(&mut k2, bv.as_slice());
                    if assoc_index(c, k2.as_slice()).is_some() {
                        return Some(string_of(k2.as_slice()));
                    }
                    None
                },
                None => None,
            },
            None => None,
        },
    }
}

} // verus!

verus! {

/// The first index at which `p` occurs in `s` (meaningful when it occurs).
pub open spec fn first_occurrence(s: Seq<char>, p: Seq<char>) -> int {
    choose|i: int| crate::text::occurs_at(s, p, i) && forall|j: int|
        0 <= j < i ==> !crate::text::occurs_at(s, p, j)
}

/// The marker that precedes the version in `java -version` output.
pub const JAVA_VERSION_MARKER: &'static str = "version \"";

/// The Java major version in `java -version` output: after the first
/// `version "` comes the quoted version; its first `.`/`_`/`-`/`+`-separated
/// piece (trimmed) is the major version, except that a leading `1` (the
/// `1.x` naming of Java 8 and before) makes the second piece the major.
pub open spec fn java_major_spec(text: Seq<char>) -> Option<i32> {
    if !contains_seq(text, JAVA_VERSION_MARKER@) {
        None
    } else {
        let start = first_occurrence(text, JAVA_VERSION_MARKER@) + JAVA_VERSION_MARKER@.len();
        let quoted = split_any(text.skip(start), seq!['"'])[0];
        let nums = split_any(quoted, seq!['.', '_', '-', '+']);
        match parse_i32_spec(trim_spec(nums[0])) {
            None => None,
            Some(first) => if first == 1 {
                if nums.len() < 2 {
                    None
                } else {
                    parse_i32_spec(trim_spec(nums[1]))
                }
            } else {
                Some(first)
            },
        }
    }
}

/// Reads the Java major version (8, 17, 21, ...) out of the text that
/// `java -version` prints.
pub fn parse_java_major_version(text: &str) -> (r: Option<i32>)
    ensures
        r == java_major_spec(text@),
{
    let t = chars_of(text);
    let marker = chars_of(JAVA_VERSION_MARKER);
    proof {
        reveal_strlit("version \"");
    }
    let found = find_from(t.as_slice(), marker.as_slice(), 0);
    let i = match found {
        Some(i) => i,
        None => {
            assert(!contains_seq(text@, JAVA_VERSION_MARKER@));
            return None;
        },
    };
    proof {
        let f = first_occurrence(text@, JAVA_VERSION_MARKER@);
        assert(crate::text::occurs_at(text@, JAVA_VERSION_MARKER@, i as int));
        assert(crate::text::occurs_at(text@, JAVA_VERSION_MARKER@, f) && forall|j: int|
            0 <= j < f ==> !crate::text::occurs_at(text@, JAVA_VERSION_MARKER@, j));
        if f < i {
            assert(false);
        }
        if i < f {
            assert(false);
        }
    }
    assert(crate::text::occurs_at(t@, marker@, i as int));
    let ml = marker.len();
    let tl = t.len();
    assert(i + ml <= tl);
    let start = i + ml;
    let mut rest: Vec<char> = Vec::new();
    let mut k: usize = start;
    while k < t.len()
        invariant
            start <= k <= t@.len(),
            rest@ == t@.subrange(start as int, k as int),
        decreases t.len() - k,
    {
        rest.push(t[k]);
        k = k + 1;
        assert(rest@ =~= t@.subrange(start as int, k as int));
    }
    assert(rest@ =~= text@.skip(start as int));
    let quote = ['"'];
    assert(quote@ =~= seq!['"']);
    let pieces = split_chars(rest.as_slice(), quote.as_slice());
    proof {
        lemma_split_any_len(rest@, seq!['"']);
    }
    let seps = ['.', '_', '-', '+'];
    assert(seps@ =~= seq!['.', '_', '-', '+']);
    let nums = split_chars(pieces[0].as_slice(), seps.as_slice());
    proof {
        lemma_split_any_len(pieces@[0]@, seq!['.', '_', '-', '+']);
    }
    let f0 = trim_chars(nums[0].as_slice());
    let first = match parse_i32(f0.as_slice()) {
        Some(v) => v,
        None => return None,
    };
    if first == 1 {
        if nums.len() < 2 {
            return None;
        }
        let f1 = trim_chars(nums[1].as_slice());
        parse_i32(f1.as_slice())
    } else {
        Some(first)
    }
}

/// Mojang's name of the host platform in its Java runtime catalogue.
pub open spec fn mojang_os_arch_spec(os: HostOs, arch: Seq<char>) -> Seq<char> {
    if os == HostOs::Windows && arch == "x86_64"@ {
        "windows-x64"@
    } else if os == HostOs::Windows && arch == "x86"@ {
        "windows-x86"@
    } else if os == HostOs::Windows && arch == "aarch64"@ {
        "windows-arm64"@
    } else if os == HostOs::MacOs && arch == "x86_64"@ {
        "mac-os"@
    } else if os == HostOs::MacOs && arch == "aarch64"@ {
        "mac-os-arm64"@
    } else if os == HostOs::Linux && arch == "x86_64"@ {
        "linux"@
    } else if os == HostOs::Linux && arch == "x86"@ {
        "linux-i386"@
    } else {
        "unknown"@
    }
}

/// Mojang's name of the host platform (`"unknown"` for other combinations).
pub fn get_mojang_os_arch(platform: &Platform) -> (r: &'static str)
    ensures
        r@ == mojang_os_arch_spec(platform.os, platform.arch@),
{
    let a = platform.arch.as_str();
    let x64 = crate::text::str_eq(a, "x86_64");
    let x86 = crate::text::str_eq(a, "x86");
    let arm = crate::text::str_eq(a, "aarch64");
    match platform.os {
        HostOs::Windows => if x64 {
            "windows-x64"
        } else if x86 {
            "windows-x86"
        } else if arm {
            "windows-arm64"
        } else {
            "unknown"
        },
        HostOs::MacOs => if x64 {
            "mac-os"
        } else if arm {
            "mac-os-arm64"
        } else {
            "unknown"
        },
        HostOs::Linux => if x64 {
            "linux"
        } else if x86 {
            "linux-i386"
        } else {
            "unknown"
        },
        HostOs::Other => "unknown",
    }
}

} // verus!

verus! {

/// Name for what compiling `pattern` with the regex crate (`Regex::new`)
/// and testing `text` against it (`Regex::is_match`) gives: `None` when the
/// pattern does not compile.
pub uninterp spec fn regex_is_match_result(pattern: Seq<char>, text: Seq<char>) -> Option<bool>;

/// regex's `Regex::new(pattern)` followed by `is_match(text)`; `None` when
/// the pattern does not compile. Nothing is claimed of which texts match.
#[verifier::external_body]
fn regex_is_match(pattern: &str, text: &str) -> (r: Option<bool>)
    ensures
        r == regex_is_match_result(pattern@, text@),
{
    regex::Regex::new(pattern).ok().map(|re| re.is_match(text))
}

/// Whether an OS name of a rule (`windows`, `osx`, `linux`) is the host's.
/// Other names match no host.
pub open spec fn os_name_matches(name: Seq<char>, os: HostOs) -> bool {
    ||| (name == "windows"@ && os == HostOs::Windows)
    ||| (name == "osx"@ && os == HostOs::MacOs)
    ||| (name == "linux"@ && os == HostOs::Linux)
}

/// Whether the OS condition of a rule holds on the host: its name, its
/// architecture (only `x86`, which matches an `x86` host), and its version
/// pattern (a regex that must compile and match the host's OS release).
pub open spec fn os_rule_spec(r: McOsRule, p: Platform) -> bool {
    &&& (r.name matches Some(n) ==> os_name_matches(n@, p.os))
    &&& (r.arch matches Some(a) ==> a@ == "x86"@ && p.arch@ == "x86"@)
    &&& (r.version matches Some(v) ==> regex_is_match_result(v@, p.os_version@) == Some(true))
}

/// The launcher claims no feature: a feature condition holds when it asks
/// for none.
pub open spec fn feature_rule_spec(f: McFeatureRule) -> bool {
    &&& f.is_demo_user != Some(true)
    &&& f.has_custom_resolution != Some(true)
    &&& f.has_quick_plays_support != Some(true)
    &&& f.is_quick_play_singleplayer != Some(true)
    &&& f.is_quick_play_multiplayer != Some(true)
    &&& f.is_quick_play_realms != Some(true)
}

/// Whether a rule's conditions hold on the host.
pub open spec fn rule_applies(r: McRule, p: Platform) -> bool {
    &&& (r.os matches Some(o) ==> os_rule_spec(o, p))
    &&& (r.features matches Some(f) ==> feature_rule_spec(f))
}

/// Rules read in order from `acc`: each rule that applies sets the verdict
/// to whether it allows.
pub open spec fn rules_from(rules: Seq<McRule>, p: Platform, acc: bool) -> bool
    decreases rules.len(),
{
    if rules.len() == 0 {
        acc
    } else {
        rules_from(
            rules.drop_first(),
            p,
            if rule_applies(rules[0], p) {
                rules[0].action == McRuleAction::Allow
            } else {
                acc
            },
        )
    }
}

/// No rules allow; otherwise the last rule that applies decides, and
/// without one the answer is no.
pub open spec fn rules_allow(rules: Seq<McRule>, p: Platform) -> bool {
    if rules.len() == 0 {
        true
    } else {
        rules_from(rules, p, false)
    }
}

/// A rule asks for a launcher feature: one of its feature flags is set to
/// true (demo user, custom resolution, or one of the quick-play modes).
pub open spec fn asks_for_feature(r: McRule) -> bool {
    match r.features {
        Some(f) => f.is_demo_user == Some(true) || f.has_custom_resolution == Some(true)
            || f.has_quick_plays_support == Some(true) || f.is_quick_play_singleplayer == Some(true)
            || f.is_quick_play_multiplayer == Some(true) || f.is_quick_play_realms == Some(true),
        None => false,
    }
}

/// The launcher claims no feature: a rule that asks for one (such as
/// `is_demo_user`) never applies, on any host.
pub proof fn lemma_feature_rule_never_applies(r: McRule, p: Platform)
    requires
        asks_for_feature(r),
    ensures
        !rule_applies(r, p),
{
}

/// Rules none of which apply leave the verdict as it was.
proof fn lemma_rules_from_none_apply(rules: Seq<McRule>, p: Platform, acc: bool)
    requires
        forall|i: int| 0 <= i < rules.len() ==> asks_for_feature(#[trigger] rules[i]),
    ensures
        rules_from(rules, p, acc) == acc,
    decreases rules.len(),
{
    if rules.len() > 0 {
        assert(asks_for_feature(rules[0]));
        assert forall|i: int| 0 <= i < rules.drop_first().len() implies asks_for_feature(
            #[trigger] rules.drop_first()[i],
        ) by {
            assert(rules.drop_first()[i] == rules[i + 1]);
        }
        lemma_rules_from_none_apply(rules.drop_first(), p, acc);
    }
}

/// Something guarded only by rules that ask for launcher features (such as
/// the `--demo` argument) is never allowed, whatever those rules' actions.
pub proof fn lemma_feature_gated_rules_deny(rules: Seq<McRule>, p: Platform)
    requires
        rules.len() > 0,
        forall|i: int| 0 <= i < rules.len() ==> asks_for_feature(#[trigger] rules[i]),
    ensures
        !rules_allow(rules, p),
{
    lemma_rules_from_none_apply(rules, p, false);
}

/// Whether the OS condition of a rule holds on the host.
pub fn os_rule_matches(os: &McOsRule, platform: &Platform) -> (b: bool)
    ensures
        b == os_rule_spec(*os, *platform),
{
    if let Some(name) = &os.name {
        let n = name.as_str();
        let ok = match platform.os {
            HostOs::Windows => crate::text::str_eq(n, "windows"),
            HostOs::MacOs => crate::text::str_eq(n, "osx"),
            HostOs::Linux => crate::text::str_eq(n, "linux"),
            HostOs::Other => false,
        };
        if !ok {
            return false;
        }
    }
    if let Some(arch) = &os.arch {
        let ok = crate::text::str_eq(arch.as_str(), "x86") && crate::text::str_eq(
            platform.arch.as_str(),
            "x86",
        );
        if !ok {
            return false;
        }
    }
    if let Some(pattern) = &os.version {
        let m = match regex_is_match(pattern.as_str(), platform.os_version.as_str()) {
            Some(b) => b,
            None => false,
        };
        if !m {
            return false;
        }
    }
    true
}

/// Whether a feature condition asks for no feature.
pub fn feature_rule_matches(feat: &McFeatureRule) -> (b: bool)
    ensures
        b == feature_rule_spec(*feat),
{
    !matches!(feat.is_demo_user, Some(true)) && !matches!(feat.has_custom_resolution, Some(true))
        && !matches!(feat.has_quick_plays_support, Some(true)) && !matches!(
        feat.is_quick_play_singleplayer,
        Some(true)
    ) && !matches!(feat.is_quick_play_multiplayer, Some(true)) && !matches!(
        feat.is_quick_play_realms,
        Some(true)
    )
}

/// Whether a rule's conditions hold on the host.
pub fn rule_matches(rule: &McRule, platform: &Platform) -> (b: bool)
    ensures
        b == rule_applies(*rule, *platform),
{
    let os_ok = match &rule.os {
        Some(o) => os_rule_matches(o, platform),
        None => true,
    };
    let feat_ok = match &rule.features {
        Some(f) => feature_rule_matches(f),
        None => true,
    };
    os_ok && feat_ok
}

/// Whether a list of rules allows something on the host: with no rules it
/// is allowed; otherwise the last rule that applies decides (allow or
/// disallow), and if none applies it is not allowed.
pub fn evaluate_rules(rules: &Vec<McRule>, platform: &Platform) -> (b: bool)
    ensures
        b == rules_allow(rules@, *platform),
{
    if rules.len() == 0 {
        return true;
    }
    let mut allowed = false;
    let mut i: usize = 0;
    assert(rules@.skip(0) =~= rules@);
    while i < rules.len()
        invariant
            i <= rules@.len(),
            rules@.len() > 0,
            rules_allow(rules@, *platform) == rules_from(rules@.skip(i as int), *platform, allowed),
        decreases rules.len() - i,
    {
        assert(rules@.skip(i as int)[0] == rules@[i as int]);
        assert(rules@.skip(i as int).drop_first() =~= rules@.skip(i + 1));
        if rule_matches(&rules[i], platform) {
            allowed = match rules[i].action {
                McRuleAction::Allow => true,
                McRuleAction::Disallow => false,
            };
        }
        i = i + 1;
    }
    allowed
}

} // verus!

verus! {

/// The views of an optional list of strings.
pub open spec fn opt_strings(r: Option<Vec<String>>) -> Option<Seq<Seq<char>>> {
    match r {
        Some(v) => Some(v@.map_values(|s: String| s@)),
        None => None,
    }
}

/// The views of an optional list of optional strings.
pub open spec fn opt_opt_strings(r: Option<Vec<Option<String>>>) -> Option<Seq<Option<Seq<char>>>> {
    match r {
        Some(v) => Some(
            v@.map_values(
                |s: Option<String>|
                    match s {
                        Some(t) => Some(t@),
                        None => None,
                    },
            ),
        ),
        None => None,
    }
}

/// Name for the pieces of `text` between the matches of `pattern`
/// (regex's `Regex::new` then `Regex::split`); `None` when the pattern does
/// not compile.
pub uninterp spec fn regex_split_result(pattern: Seq<char>, text: Seq<char>) -> Option<Seq<Seq<char>>>;

/// Name for the first capture group of each match of `pattern` in `text`,
/// in order (regex's `Regex::new` then `Regex::captures_iter`); `None` when
/// the pattern does not compile.
pub uninterp spec fn regex_group1_result(pattern: Seq<char>, text: Seq<char>) -> Option<Seq<Option<Seq<char>>>>;

/// regex's `Regex::split`: the text between matches of `pattern`.
#[verifier::external_body]
fn regex_split(pattern: &str, text: &str) -> (r: Option<Vec<String>>)
    ensures
        opt_strings(r) == regex_split_result(pattern@, text@),
{
    regex::Regex::new(pattern).ok().map(|re| re.split(text).map(|s| s.to_string()).collect())
}

/// regex's `Regex::captures_iter`: capture group 1 of each match.
#[verifier::external_body]
fn regex_group1(pattern: &str, text: &str) -> (r: Option<Vec<Option<String>>>)
    ensures
        opt_opt_strings(r) == regex_group1_result(pattern@, text@),
{
    regex::Regex::new(pattern).ok().map(
        |re| re.captures_iter(text).map(|c| c.get(1).map(|m| m.as_str().to_string())).collect(),
    )
}

/// A `${name}` placeholder of an argument template.
pub const MACRO_PATTERN: &'static str = r"\$\{([^}]+)\}";

/// The plain values of a list of name and value pairs.
pub open spec fn pairs_view(v: Seq<(String, String)>) -> Seq<(Seq<char>, Seq<char>)> {
    v.map_values(|p: (String, String)| (p.0@, p.1@))
}

/// The value of the first pair named `key`.
pub open spec fn pair_lookup(m: Seq<(Seq<char>, Seq<char>)>, key: Seq<char>) -> Option<Seq<char>>
    decreases m.len(),
{
    if m.len() == 0 {
        None
    } else if m[0].0 == key {
        Some(m[0].1)
    } else {
        pair_lookup(m.drop_first(), key)
    }
}

/// The value of variable `key` (empty when unknown).
pub open spec fn var_value(vars: Seq<(Seq<char>, Seq<char>)>, key: Seq<char>) -> Seq<char> {
    match pair_lookup(vars, key) {
        Some(v) => v,
        None => Seq::empty(),
    }
}

/// The value standing for a placeholder's name.
pub open spec fn key_value(k: Option<Seq<char>>, vars: Seq<(Seq<char>, Seq<char>)>) -> Seq<char> {
    match k {
        Some(k) => var_value(vars, k),
        None => Seq::empty(),
    }
}

/// The text pieces with the placeholder values between them.
pub open spec fn substitute(
    pieces: Seq<Seq<char>>,
    keys: Seq<Option<Seq<char>>>,
    vars: Seq<(Seq<char>, Seq<char>)>,
) -> Seq<char>
    decreases pieces.len(),
{
    if pieces.len() == 0 {
        Seq::empty()
    } else if keys.len() == 0 {
        pieces[0] + substitute(pieces.drop_first(), keys, vars)
    } else {
        pieces[0] + key_value(keys[0], vars) + substitute(pieces.drop_first(), keys.drop_first(), vars)
    }
}

/// An argument template with each `${name}` replaced by the value of the
/// variable `name` (empty when unknown).
pub open spec fn resolve_spec(arg: Seq<char>, vars: Seq<(Seq<char>, Seq<char>)>) -> Seq<char> {
    match (regex_split_result(MACRO_PATTERN@, arg), regex_group1_result(MACRO_PATTERN@, arg)) {
        (Some(pieces), Some(keys)) => substitute(pieces, keys, vars),
        _ => arg,
    }
}

/// The value of variable `key`, empty when there is none.
pub fn lookup_var(vars: &Vec<(String, String)>, key: &[char]) -> (r: Vec<char>)
    ensures
        r@ == var_value(pairs_view(vars@), key@),
{
    let ghost m = pairs_view(vars@);
    let mut i: usize = 0;
    assert(m.skip(0) =~= m);
    while i < vars.len()
        invariant
            i <= vars@.len(),
            m == pairs_view(vars@),
            pair_lookup(m, key@) == pair_lookup(m.skip(i as int), key@),
        decreases vars.len() - i,
    {
        let name = chars_of(vars[i].0.as_str());
        assert(m.skip(i as int)[0] == (vars@[i as int].0@, vars@[i as int].1@));
        if slice_eq(name.as_slice(), key) {
            return chars_of(vars[i].1.as_str());
        }
        assert(m.skip(i as int).drop_first() =~= m.skip(i + 1));
        i = i + 1;
    }
    Vec::new()
}

/// Replaces each `${name}` placeholder of `arg` by the variable's value.
pub fn resolve_argument(arg: &str, vars: &Vec<(String, String)>) -> (r: String)
    ensures
        r@ == resolve_spec(arg@, pairs_view(vars@)),
{
    let pieces = match regex_split(MACRO_PATTERN, arg) {
        Some(p) => p,
        None => return String::from_str(arg),
    };
    let keys = match regex_group1(MACRO_PATTERN, arg) {
        Some(k) => k,
        None => return String::from_str(arg),
    };
    substitute_pieces(&pieces, &keys, vars)
}

/// The views of a list of optional strings.
pub open spec fn opt_str_views(v: Seq<Option<String>>) -> Seq<Option<Seq<char>>> {
    v.map_values(
        |s: Option<String>|
            match s {
                Some(t) => Some(t@),
                None => None,
            },
    )
}

/// The text pieces of a template (what lies between its placeholders) with
/// the value of each placeholder's name put between them, in order.
pub fn substitute_pieces(pieces: &Vec<String>, keys: &Vec<Option<String>>, vars: &Vec<(String, String)>) -> (r: String)
    ensures
        r@ == substitute(pieces@.map_values(|s: String| s@), opt_str_views(keys@), pairs_view(vars@)),
{
    let ghost pairs = pairs_view(vars@);
    let ghost pv = pieces@.map_values(|s: String| s@);
    let ghost kv = opt_str_views(keys@);
    let ghost goal = substitute(pv, kv, pairs);
    let mut out: Vec<char> = Vec::new();
    let mut i: usize = 0;
    let mut j: usize = 0;
    assert(pv.skip(0) =~= pv);
    assert(kv.skip(0) =~= kv);
    assert(goal == out@ + substitute(pv.skip(0), kv.skip(0), pairs));
    while i < pieces.len()
        invariant
            i <= pieces@.len(),
            j <= keys@.len(),
            pv == pieces@.map_values(|s: String| s@),
            kv == opt_str_views(keys@),
            pairs == pairs_view(vars@),
            goal == out@ + substitute(pv.skip(i as int), kv.skip(j as int), pairs),
        decreases pieces.len() - i,
    {
        let ghost before = out@;
        let ghost ps = pv.skip(i as int);
        let ghost ks = kv.skip(j as int);
        assert(ps[0] == pieces@[i as int]@);
        crate::text::push_str_chars(&mut out, pieces[i].as_str());
        assert(ps.drop_first() =~= pv.skip(i + 1));
        if j < keys.len() {
            assert(ks[0] == kv[j as int]);
            let value = match &keys[j] {
                Some(k) => {
                    let kc = chars_of(k.as_str());
                    lookup_var(vars, kc.as_slice())
                },
                None => Vec::new(),
            };
            assert(value@ == key_value(ks[0], pairs));
            extend_chars(&mut out, value.as_slice());
            assert(ks.drop_first() =~= kv.skip(j + 1));
            assert(out@ + substitute(pv.skip(i + 1), kv.skip(j + 1), pairs) =~= before + substitute(
                ps,
                ks,
                pairs,
            ));
            j = j + 1;
        } else {
            assert(ks.len() == 0);
            assert(out@ + substitute(pv.skip(i + 1), kv.skip(j as int), pairs) =~= before
                + substitute(ps, ks, pairs));
        }
        i = i + 1;
    }
    assert(pv.skip(i as int) =~= Seq::<Seq<char>>::empty());
    assert(out@ =~= out@ + Seq::<char>::empty());
    string_of(out.as_slice())
}

} // verus!
