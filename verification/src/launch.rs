//! The launch command of a game version: the classpath, the values of the
//! argument placeholders, and the JVM and game arguments in order.
use vstd::prelude::*;
use crate::mc_compat::{excluded_by, strings_view, CompatArtifact, MacosArm64Override};
use crate::mc_parser::{
    evaluate_rules, jna_bump_spec, jna_compat_rel_path, jna_compat_rel_spec, jna_needs_bump,
    maven_coord_spec, maven_coord_to_path, pairs_view, resolve_argument, resolve_spec, rules_allow,
};
use crate::mc_types::{McArgumentItem, McArgumentValue, McLibrary, McSpecificVersionDetail};
use crate::paths::{join, path_join, HostOs, Platform};
use crate::text::{chars_of, is_prefix, join_strings, join_with, split_words, str_eq, str_views, string_of, views, words};

verus! {

/// Everything needed to start one game version.
pub struct LaunchContext {
    pub version: McSpecificVersionDetail,
    pub java_path: String,
    /// Per-instance game directory (saves, configs, resource packs).
    pub game_dir: String,
    /// Shared libraries directory.
    pub libraries_dir: String,
    /// Shared assets directory.
    pub assets_dir: String,
    /// Per-instance directory of extracted native libraries.
    pub natives_dir: String,
    /// Shared versions directory; a version's jar is `<versions_dir>/<id>/<id>.jar`.
    pub versions_dir: String,
    pub auth_player_name: String,
    pub auth_uuid: String,
    pub auth_access_token: String,
    /// Launcher client id (empty offline).
    pub client_id: String,
    /// Xbox Live user id (empty offline).
    pub xuid: String,
    /// Maximum heap size, such as `"2G"`.
    pub xmx: String,
    /// Initial heap size, such as `"512M"`.
    pub xms: String,
    /// Major version of the Java that will run the game, when known; else
    /// the one the version asks for is assumed.
    pub java_major_version: Option<i32>,
    /// Replacement libraries for native Apple Silicon mode.
    pub compat_override: Option<MacosArm64Override>,
    /// The machine the game will run on.
    pub platform: Platform,
}

/// A program to start: its path, working directory and arguments.
pub struct LaunchCommand {
    pub program: String,
    pub current_dir: String,
    pub args: Vec<String>,
}

/// Where a library's jar lies under the libraries directory, if it goes on
/// the classpath: the artifact's own path, else one made from its maven
/// coordinates; a natives-only library has none.
pub open spec fn lib_rel_path(lib: McLibrary) -> Option<Seq<char>> {
    match lib.downloads {
        Some(d) => match d.artifact {
            Some(a) => match a.path {
                Some(p) => Some(p@),
                None => maven_coord_spec(lib.name@),
            },
            None => None,
        },
        None => if lib.natives.is_some() {
            None
        } else {
            maven_coord_spec(lib.name@)
        },
    }
}

/// The classpath entry of one library: none when its rules refuse it or
/// the compatibility layer replaces it; an outdated JNA on macOS points to
/// the compatible version.
pub open spec fn lib_entry(lib: McLibrary, ctx: LaunchContext) -> Option<Seq<char>> {
    if lib.rules matches Some(rs) && !rules_allow(rs@, ctx.platform) {
        None
    } else if ctx.compat_override matches Some(ov) && excluded_by(
        strings_view(ov.exclude_prefixes@),
        lib.name@,
    ) {
        None
    } else if ctx.platform.os == HostOs::MacOs && jna_bump_spec(lib.name@) is Some {
        Some(path_join(ctx.libraries_dir@, jna_compat_rel_spec(jna_bump_spec(lib.name@)->0)))
    } else {
        match lib_rel_path(lib) {
            Some(r) => Some(path_join(ctx.libraries_dir@, r)),
            None => None,
        }
    }
}

/// The entries of the libraries, in order.
pub open spec fn library_entries(libs: Seq<McLibrary>, ctx: LaunchContext) -> Seq<Seq<char>>
    decreases libs.len(),
{
    if libs.len() == 0 {
        Seq::empty()
    } else {
        let rest = library_entries(libs.drop_last(), ctx);
        match lib_entry(libs.last(), ctx) {
            Some(e) => rest.push(e),
            None => rest,
        }
    }
}

/// The jars (not natives) of the compatibility layer.
pub open spec fn override_entries(arts: Seq<CompatArtifact>, libdir: Seq<char>) -> Seq<Seq<char>>
    decreases arts.len(),
{
    if arts.len() == 0 {
        Seq::empty()
    } else {
        let rest = override_entries(arts.drop_last(), libdir);
        if arts.last().extract {
            rest
        } else {
            rest.push(path_join(libdir, arts.last().rel_path@))
        }
    }
}

/// The version's jar: `<id>-nosig.jar` when that file exists, else `<id>.jar`.
pub open spec fn version_jar(ctx: LaunchContext, nosig_exists: bool) -> Seq<char> {
    let dir = path_join(ctx.versions_dir@, ctx.version.id@);
    if nosig_exists {
        path_join(dir, ctx.version.id@ + "-nosig.jar"@)
    } else {
        path_join(dir, ctx.version.id@ + ".jar"@)
    }
}

/// The classpath before duplicates are dropped.
pub open spec fn raw_classpath(ctx: LaunchContext, nosig_exists: bool) -> Seq<Seq<char>> {
    let libs = library_entries(ctx.version.libraries@, ctx);
    let ovs = match ctx.compat_override {
        Some(ov) => override_entries(ov.artifacts@, ctx.libraries_dir@),
        None => Seq::empty(),
    };
    (libs + ovs).push(version_jar(ctx, nosig_exists))
}

/// `s` with every entry after its first occurrence left out.
pub open spec fn dedup_first(s: Seq<Seq<char>>) -> Seq<Seq<char>>
    decreases s.len(),
{
    if s.len() == 0 {
        Seq::empty()
    } else {
        let d = dedup_first(s.drop_last());
        if d.contains(s.last()) {
            d
        } else {
            d.push(s.last())
        }
    }
}

/// The classpath: libraries, then the compatibility jars, then the version
/// jar, each path once, where it first occurs.
pub open spec fn classpath_spec(ctx: LaunchContext, nosig_exists: bool) -> Seq<Seq<char>> {
    dedup_first(raw_classpath(ctx, nosig_exists))
}

/// No entry occurs twice.
pub open spec fn no_dups(s: Seq<Seq<char>>) -> bool {
    forall|i: int, j: int| 0 <= i < j < s.len() ==> s[i] != s[j]
}

/// What dropping duplicates keeps: each entry once, and exactly the
/// entries of the input.
pub proof fn lemma_dedup_first(s: Seq<Seq<char>>)
    ensures
        no_dups(dedup_first(s)),
        forall|x: Seq<char>| dedup_first(s).contains(x) <==> s.contains(x),
    decreases s.len(),
{
    if s.len() > 0 {
        lemma_dedup_first(s.drop_last());
        let d = dedup_first(s.drop_last());
        assert forall|x: Seq<char>| dedup_first(s).contains(x) <==> s.contains(x) by {
            if s.contains(x) {
                let k = choose|k: int| 0 <= k < s.len() && s[k] == x;
                if k < s.len() - 1 {
                    assert(s.drop_last()[k] == x);
                }
            }
            if s.drop_last().contains(x) {
                let k = choose|k: int| 0 <= k < s.drop_last().len() && s.drop_last()[k] == x;
                assert(s[k] == x);
            }
            if !d.contains(s.last()) {
                if d.push(s.last()).contains(x) && x != s.last() {
                    let k = choose|k: int| 0 <= k < d.push(s.last()).len() && d.push(s.last())[k] == x;
                    assert(d[k] == x);
                }
                if d.contains(x) {
                    let k = choose|k: int| 0 <= k < d.len() && d[k] == x;
                    assert(d.push(s.last())[k] == x);
                }
                assert(d.push(s.last())[d.len() as int] == s.last());
            }
        }
    }
}

/// Drops every entry after its first occurrence.
pub fn dedup_paths(v: Vec<String>) -> (r: Vec<String>)
    ensures
        str_views(r@) == dedup_first(str_views(v@)),
{
    let mut out: Vec<String> = Vec::new();
    let mut i: usize = 0;
    assert(str_views(v@).take(0) =~= Seq::<Seq<char>>::empty());
    assert(str_views(out@) =~= Seq::<Seq<char>>::empty());
    while i < v.len()
        invariant
            i <= v@.len(),
            str_views(out@) == dedup_first(str_views(v@).take(i as int)),
        decreases v.len() - i,
    {
        let ghost t = str_views(v@).take(i + 1);
        assert(t.drop_last() =~= str_views(v@).take(i as int));
        assert(t.last() == v@[i as int]@);
        let mut seen = false;
        let mut k: usize = 0;
        while k < out.len()
            invariant
                k <= out@.len(),
                i < v@.len(),
                !seen ==> forall|m: int| 0 <= m < k ==> out@[m]@ != v@[i as int]@,
                seen ==> str_views(out@).contains(v@[i as int]@),
            decreases out.len() - k,
        {
            if !seen && str_eq(out[k].as_str(), v[i].as_str()) {
                seen = true;
                assert(str_views(out@)[k as int] == v@[i as int]@);
            }
            k = k + 1;
        }
        if !seen {
            assert(!str_views(out@).contains(v@[i as int]@)) by {
                if str_views(out@).contains(v@[i as int]@) {
                    let m = choose|m: int| 0 <= m < str_views(out@).len() && str_views(out@)[m] == v@[i as int]@;
                    assert(out@[m]@ == v@[i as int]@);
                }
            }
            let ghost before = out@;
            out.push(v[i].clone());
            assert(str_views(out@) =~= str_views(before).push(v@[i as int]@));
        }
        i = i + 1;
    }
    assert(str_views(v@).take(i as int) =~= str_views(v@));
    out
}

/// The view of an optional string.
pub open spec fn opt_string(o: Option<String>) -> Option<Seq<char>> {
    match o {
        Some(s) => Some(s@),
        None => None,
    }
}

/// The version's jar path.
pub fn version_jar_path(versions_dir: &str, id: &str, nosig_exists: bool) -> (r: String)
    ensures
        r@ == path_join(
            path_join(versions_dir@, id@),
            id@ + (if nosig_exists { "-nosig.jar"@ } else { ".jar"@ }),
        ),
{
    let dir = join(versions_dir, id);
    let mut name: Vec<char> = chars_of(id);
    if nosig_exists {
        crate::text::push_str_chars(&mut name, "-nosig.jar");
    } else {
        crate::text::push_str_chars(&mut name, ".jar");
    }
    let file = string_of(name.as_slice());
    join(dir.as_str(), file.as_str())
}

impl LaunchContext {
    /// The classpath entry of one library, if it has one.
    pub fn library_entry(&self, lib: &McLibrary) -> (r: Option<String>)
        ensures
            opt_string(r) == lib_entry(*lib, *self),
    {
        if let Some(rules) = &lib.rules {
            if !evaluate_rules(rules, &self.platform) {
                return None;
            }
        }
        if let Some(ov) = &self.compat_override {
            if ov.excludes(lib.name.as_str()) {
                return None;
            }
        }
        if self.platform.os == HostOs::MacOs {
            if let Some(artifact) = jna_needs_bump(lib.name.as_str()) {
                let rel = jna_compat_rel_path(artifact);
                return Some(join(self.libraries_dir.as_str(), rel.as_str()));
            }
        }
        let rel: Option<String> = match &lib.downloads {
            Some(d) => match &d.artifact {
                Some(a) => match &a.path {
                    Some(p) => Some(p.clone()),
                    None => maven_coord_to_path(lib.name.as_str()),
                },
                None => None,
            },
            None => if lib.natives.is_some() {
                None
            } else {
                maven_coord_to_path(lib.name.as_str())
            },
        };
        assert(opt_string(rel) == lib_rel_path(*lib));
        match rel {
            Some(r) => Some(join(self.libraries_dir.as_str(), r.as_str())),
            None => None,
        }
    }

    /// The paths of all jars on the classpath, each once, in the order in
    /// which they first occur; the version jar comes after the libraries and
    /// the compatibility jars. `nosig_exists` tells whether
    /// `<versions_dir>/<id>/<id>-nosig.jar` exists, which then stands for
    /// the version jar.
    pub fn classpath_paths(&self, nosig_exists: bool) -> (r: Vec<String>)
        ensures
            str_views(r@) == classpath_spec(*self, nosig_exists),
    {
        let mut raw: Vec<String> = Vec::new();
        let libs = &self.version.libraries;
        let mut i: usize = 0;
        assert(libs@.take(0) =~= Seq::<McLibrary>::empty());
        assert(str_views(raw@) =~= Seq::<Seq<char>>::empty());
        while i < libs.len()
            invariant
                i <= libs@.len(),
                libs@ == self.version.libraries@,
                str_views(raw@) == library_entries(libs@.take(i as int), *self),
            decreases libs.len() - i,
        {
            let ghost t = libs@.take(i + 1);
            assert(t.drop_last() =~= libs@.take(i as int));
            assert(t.last() == libs@[i as int]);
            let ghost before = raw@;
            match self.library_entry(&libs[i]) {
                Some(e) => {
                    raw.push(e);
                    assert(str_views(raw@) =~= str_views(before).push(raw@.last()@));
                },
                None => {},
            }
            i = i + 1;
        }
        assert(libs@.take(i as int) =~= libs@);
        let ghost lib_part = str_views(raw@);
        if let Some(ov) = &self.compat_override {
            let arts = &ov.artifacts;
            let mut k: usize = 0;
            assert(arts@.take(0) =~= Seq::<CompatArtifact>::empty());
            assert(lib_part + override_entries(arts@.take(0), self.libraries_dir@) =~= lib_part);
            while k < arts.len()
                invariant
                    k <= arts@.len(),
                    str_views(raw@) == lib_part + override_entries(arts@.take(k as int), self.libraries_dir@),
                decreases arts.len() - k,
            {
                let ghost t = arts@.take(k + 1);
                assert(t.drop_last() =~= arts@.take(k as int));
                assert(t.last() == arts@[k as int]);
                if !arts[k].extract {
                    let ghost before = raw@;
                    let e = join(self.libraries_dir.as_str(), arts[k].rel_path.as_str());
                    raw.push(e);
                    assert(str_views(raw@) =~= str_views(before).push(e@));
                }
                k = k + 1;
            }
            assert(arts@.take(k as int) =~= arts@);
        } else {
            assert(str_views(raw@) =~= lib_part + Seq::<Seq<char>>::empty());
        }
        let ghost before = raw@;
        let jar = version_jar_path(self.versions_dir.as_str(), self.version.id.as_str(), nosig_exists);
        raw.push(jar);
        assert(str_views(raw@) =~= str_views(before).push(jar@));
        assert(str_views(raw@) == raw_classpath(*self, nosig_exists));
        dedup_paths(raw)
    }
}

/// The classpath holds each path once: exactly the paths of the libraries,
/// the compatibility jars and the version jar.
pub proof fn lemma_classpath_entries(ctx: LaunchContext, nosig_exists: bool)
    ensures
        no_dups(classpath_spec(ctx, nosig_exists)),
        forall|x: Seq<char>|
            classpath_spec(ctx, nosig_exists).contains(x) <==> raw_classpath(ctx, nosig_exists).contains(x),
        classpath_spec(ctx, nosig_exists).contains(version_jar(ctx, nosig_exists)),
{
    let raw = raw_classpath(ctx, nosig_exists);
    lemma_dedup_first(raw);
    assert(raw[raw.len() - 1] == version_jar(ctx, nosig_exists));
    assert(raw.contains(version_jar(ctx, nosig_exists)));
}

/// The version jar is the last classpath entry, unless a library or a
/// compatibility jar has the same path.
pub proof fn lemma_classpath_ends_with_version_jar(ctx: LaunchContext, nosig_exists: bool)
    requires
        !raw_classpath(ctx, nosig_exists).drop_last().contains(version_jar(ctx, nosig_exists)),
    ensures
        classpath_spec(ctx, nosig_exists).last() == version_jar(ctx, nosig_exists),
{
    let raw = raw_classpath(ctx, nosig_exists);
    lemma_dedup_first(raw.drop_last());
}

/// The separator of classpath entries: `;` on Windows, `:` elsewhere.
pub open spec fn path_separator(os: HostOs) -> Seq<char> {
    if os == HostOs::Windows {
        ";"@
    } else {
        ":"@
    }
}

/// The classpath separator of a system.
pub fn classpath_separator(os: HostOs) -> (r: &'static str)
    ensures
        r@ == path_separator(os),
{
    if os == HostOs::Windows {
        ";"
    } else {
        ":"
    }
}

/// The classpath as one string.
pub open spec fn classpath_string(ctx: LaunchContext, nosig_exists: bool) -> Seq<char> {
    join_with(classpath_spec(ctx, nosig_exists), path_separator(ctx.platform.os))
}

/// The Java major version the game will run on: the one given, else the
/// one the version asks for, else 8.
pub open spec fn effective_java_major(ctx: LaunchContext) -> i32 {
    match ctx.java_major_version {
        Some(m) => m,
        None => match ctx.version.java_version {
            Some(jv) => jv.major_version,
            None => 8,
        },
    }
}

/// JVM flags that newer Java needs: from 17 on the vector incubator and
/// native access, from 22 on unsafe memory access.
pub open spec fn compat_args_spec(major: i32) -> Seq<Seq<char>> {
    (if major >= 17 {
        seq!["--add-modules=jdk.incubator.vector"@, "--enable-native-access=ALL-UNNAMED"@]
    } else {
        Seq::empty()
    }) + (if major >= 22 {
        seq!["--sun-misc-unsafe-memory-access=allow"@]
    } else {
        Seq::empty()
    })
}

/// A name and value pair.
fn pair(k: &str, v: &str) -> (r: (String, String))
    ensures
        r.0@ == k@,
        r.1@ == v@,
{
    (String::from_str(k), String::from_str(v))
}

/// The values of the argument placeholders.
pub open spec fn vars_spec(ctx: LaunchContext, classpath: Seq<char>) -> Seq<(Seq<char>, Seq<char>)> {
    seq![
        ("auth_player_name"@, ctx.auth_player_name@),
        ("auth_uuid"@, ctx.auth_uuid@),
        ("auth_access_token"@, ctx.auth_access_token@),
        ("auth_session"@, ctx.auth_access_token@),
        ("clientid"@, ctx.client_id@),
        ("auth_xuid"@, ctx.xuid@),
        ("user_type"@, "msa"@),
        ("user_properties"@, "{}"@),
        ("user_property_map"@, "{}"@),
        ("version_name"@, ctx.version.id@),
        ("game_directory"@, ctx.game_dir@),
        ("assets_root"@, ctx.assets_dir@),
        ("assets_index_name"@, match ctx.version.asset_index {
            Some(a) => a.id@,
            None => "legacy"@,
        }),
        ("game_assets"@, ctx.assets_dir@),
        ("version_type"@, ctx.version.version_type@),
        ("natives_directory"@, ctx.natives_dir@),
        ("launcher_name"@, "VoxelRuler"@),
        ("launcher_version"@, ctx.platform.launcher_version@),
        ("classpath"@, classpath),
        ("library_directory"@, ctx.libraries_dir@),
        ("classpath_separator"@, path_separator(ctx.platform.os)),
    ]
}

/// The arguments one item gives: a plain one resolved, a conditional one
/// only when its rules allow it.
pub open spec fn item_args(
    item: McArgumentItem,
    vars: Seq<(Seq<char>, Seq<char>)>,
    p: Platform,
) -> Seq<Seq<char>> {
    match item {
        McArgumentItem::Simple(s) => seq![resolve_spec(s@, vars)],
        McArgumentItem::Conditional(c) => if rules_allow(c.rules@, p) {
            match c.value {
                McArgumentValue::Single(s) => seq![resolve_spec(s@, vars)],
                McArgumentValue::Many(v) => v@.map_values(|a: String| resolve_spec(a@, vars)),
            }
        } else {
            Seq::empty()
        },
    }
}

/// The arguments of a list of items, in order.
pub open spec fn collect_spec(
    items: Seq<McArgumentItem>,
    vars: Seq<(Seq<char>, Seq<char>)>,
    p: Platform,
) -> Seq<Seq<char>>
    decreases items.len(),
{
    if items.len() == 0 {
        Seq::empty()
    } else {
        collect_spec(items.drop_last(), vars, p) + item_args(items.last(), vars, p)
    }
}

/// Resolves the placeholders of each argument item that applies on the host.
pub fn collect_args(items: &Vec<McArgumentItem>, vars: &Vec<(String, String)>, platform: &Platform) -> (r: Vec<String>)
    ensures
        str_views(r@) == collect_spec(items@, pairs_view(vars@), *platform),
{
    let ghost pv = pairs_view(vars@);
    let mut out: Vec<String> = Vec::new();
    let mut i: usize = 0;
    assert(items@.take(0) =~= Seq::<McArgumentItem>::empty());
    assert(str_views(out@) =~= Seq::<Seq<char>>::empty());
    while i < items.len()
        invariant
            i <= items@.len(),
            pv == pairs_view(vars@),
            str_views(out@) == collect_spec(items@.take(i as int), pv, *platform),
        decreases items.len() - i,
    {
        let ghost t = items@.take(i + 1);
        assert(t.drop_last() =~= items@.take(i as int));
        assert(t.last() == items@[i as int]);
        let ghost before = str_views(out@);
        match &items[i] {
            McArgumentItem::Simple(s) => {
                let a = resolve_argument(s.as_str(), vars);
                out.push(a);
                assert(str_views(out@) =~= before + seq![a@]);
            },
            McArgumentItem::Conditional(c) => {
                if evaluate_rules(&c.rules, platform) {
                    match &c.value {
                        McArgumentValue::Single(s) => {
                            let a = resolve_argument(s.as_str(), vars);
                            out.push(a);
                            assert(str_views(out@) =~= before + seq![a@]);
                        },
                        McArgumentValue::Many(v) => {
                            let ghost whole = v@.map_values(|a: String| resolve_spec(a@, pv));
                            let mut k: usize = 0;
                            assert(whole.take(0) =~= Seq::<Seq<char>>::empty());
                            assert(str_views(out@) =~= before + whole.take(0));
                            while k < v.len()
                                invariant
                                    k <= v@.len(),
                                    pv == pairs_view(vars@),
                                    whole == v@.map_values(|a: String| resolve_spec(a@, pv)),
                                    str_views(out@) == before + whole.take(k as int),
                                decreases v.len() - k,
                            {
                                let a = resolve_argument(v[k].as_str(), vars);
                                let ghost mid = str_views(out@);
                                out.push(a);
                                assert(str_views(out@) =~= mid.push(a@));
                                assert(whole.take(k + 1) =~= whole.take(k as int).push(whole[k as int]));
                                k = k + 1;
                            }
                            assert(whole.take(k as int) =~= whole);
                        },
                    }
                } else {
                    assert(str_views(out@) =~= before + Seq::<Seq<char>>::empty());
                }
            },
        }
        i = i + 1;
    }
    assert(items@.take(i as int) =~= items@);
    out
}

impl LaunchContext {
    /// The classpath entries joined with the system's separator.
    pub fn build_classpath(&self, nosig_exists: bool) -> (r: String)
        ensures
            r@ == classpath_string(*self, nosig_exists),
    {
        let parts = self.classpath_paths(nosig_exists);
        join_strings(&parts, classpath_separator(self.platform.os))
    }

    /// JVM flags for the Java that will actually run the game (not the one
    /// the version asks for, when they differ).
    pub fn java_compat_args(&self) -> (r: Vec<String>)
        ensures
            str_views(r@) == compat_args_spec(effective_java_major(*self)),
    {
        let major: i32 = match self.java_major_version {
            Some(m) => m,
            None => match &self.version.java_version {
                Some(jv) => jv.major_version,
                None => 8,
            },
        };
        let mut args: Vec<String> = Vec::new();
        if major >= 17 {
            args.push(String::from_str("--add-modules=jdk.incubator.vector"));
            args.push(String::from_str("--enable-native-access=ALL-UNNAMED"));
        }
        if major >= 22 {
            args.push(String::from_str("--sun-misc-unsafe-memory-access=allow"));
        }
        assert(str_views(args@) =~= compat_args_spec(major));
        args
    }

    /// The values of the argument placeholders, for the given classpath.
    pub fn build_vars(&self, classpath: &str) -> (r: Vec<(String, String)>)
        ensures
            pairs_view(r@) == vars_spec(*self, classpath@),
    {
        let mut m: Vec<(String, String)> = Vec::new();
        m.push(pair("auth_player_name", self.auth_player_name.as_str()));
        m.push(pair("auth_uuid", self.auth_uuid.as_str()));
        m.push(pair("auth_access_token", self.auth_access_token.as_str()));
        m.push(pair("auth_session", self.auth_access_token.as_str()));
        m.push(pair("clientid", self.client_id.as_str()));
        m.push(pair("auth_xuid", self.xuid.as_str()));
        m.push(pair("user_type", "msa"));
        m.push(pair("user_properties", "{}"));
        m.push(pair("user_property_map", "{}"));
        m.push(pair("version_name", self.version.id.as_str()));
        m.push(pair("game_directory", self.game_dir.as_str()));
        m.push(pair("assets_root", self.assets_dir.as_str()));
        let index_name: &str = match &self.version.asset_index {
            Some(a) => a.id.as_str(),
            None => "legacy",
        };
        m.push(pair("assets_index_name", index_name));
        m.push(pair("game_assets", self.assets_dir.as_str()));
        m.push(pair("version_type", self.version.version_type.as_str()));
        m.push(pair("natives_directory", self.natives_dir.as_str()));
        m.push(pair("launcher_name", "VoxelRuler"));
        m.push(pair("launcher_version", self.platform.launcher_version.as_str()));
        m.push(pair("classpath", classpath));
        m.push(pair("library_directory", self.libraries_dir.as_str()));
        m.push(pair("classpath_separator", classpath_separator(self.platform.os)));
        assert(pairs_view(m@) =~= vars_spec(*self, classpath@));
        m
    }
}

/// The garbage collector selectors; only one of them may be given.
pub open spec fn gc_flags() -> Seq<Seq<char>> {
    seq![
        "-XX:+UseG1GC"@,
        "-XX:+UseZGC"@,
        "-XX:+UseShenandoahGC"@,
        "-XX:+UseParallelGC"@,
        "-XX:+UseSerialGC"@,
        "-XX:+UseConcMarkSweepGC"@,
        "-XX:+UseEpsilonGC"@,
    ]
}

/// The group of JVM flags of which only one may be given that `arg` is in:
/// 0 for the collector selectors, then 1 to 4 for the flags starting with
/// `-Xmx`, `-Xms`, `-Xss` and `-Xmn`; none for any other flag.
pub open spec fn jvm_group(arg: Seq<char>) -> Option<nat> {
    if gc_flags().contains(arg) {
        Some(0)
    } else if is_prefix("-Xmx"@, arg) {
        Some(1)
    } else if is_prefix("-Xms"@, arg) {
        Some(2)
    } else if is_prefix("-Xss"@, arg) {
        Some(3)
    } else if is_prefix("-Xmn"@, arg) {
        Some(4)
    } else {
        None
    }
}

/// Whether the `i`-th flag stays: it is in no group, or no later flag is in
/// its group (the last one given wins).
pub open spec fn keep_arg(args: Seq<Seq<char>>, i: int) -> bool {
    match jvm_group(args[i]) {
        Some(g) => forall|j: int| i < j < args.len() ==> jvm_group(#[trigger] args[j]) != Some(g),
        None => true,
    }
}

/// The flags among the first `n` that stay, in order.
pub open spec fn kept_upto(args: Seq<Seq<char>>, n: nat) -> Seq<Seq<char>>
    decreases n,
{
    if n == 0 {
        Seq::empty()
    } else {
        let prev = kept_upto(args, (n - 1) as nat);
        if keep_arg(args, n - 1) {
            prev.push(args[n - 1])
        } else {
            prev
        }
    }
}

/// JVM flags with the conflicts removed: of each group only the last flag.
pub open spec fn dedup_jvm_spec(args: Seq<Seq<char>>) -> Seq<Seq<char>> {
    kept_upto(args, args.len())
}

/// Whether `arg` is a garbage collector selector.
fn is_gc_flag(arg: &str) -> (b: bool)
    ensures
        b == gc_flags().contains(arg@),
{
    let b = str_eq(arg, "-XX:+UseG1GC") || str_eq(arg, "-XX:+UseZGC") || str_eq(arg, "-XX:+UseShenandoahGC")
        || str_eq(arg, "-XX:+UseParallelGC") || str_eq(arg, "-XX:+UseSerialGC") || str_eq(
        arg,
        "-XX:+UseConcMarkSweepGC",
    ) || str_eq(arg, "-XX:+UseEpsilonGC");
    let ghost g = gc_flags();
    if b {
        assert(g[0] == "-XX:+UseG1GC"@ && g[1] == "-XX:+UseZGC"@ && g[2] == "-XX:+UseShenandoahGC"@ && g[3]
            == "-XX:+UseParallelGC"@ && g[4] == "-XX:+UseSerialGC"@ && g[5] == "-XX:+UseConcMarkSweepGC"@
            && g[6] == "-XX:+UseEpsilonGC"@);
    } else {
        assert(!g.contains(arg@)) by {
            if g.contains(arg@) {
                let k = choose|k: int| 0 <= k < g.len() && g[k] == arg@;
                assert(0 <= k < 7);
            }
        }
    }
    b
}

/// The group of a JVM flag, 5 standing for none.
fn jvm_group_code(arg: &str) -> (r: usize)
    ensures
        r <= 5,
        r < 5 ==> jvm_group(arg@) == Some(r as nat),
        r == 5 ==> jvm_group(arg@) is None,
{
    if is_gc_flag(arg) {
        0
    } else if crate::text::str_starts_with(arg, "-Xmx") {
        1
    } else if crate::text::str_starts_with(arg, "-Xms") {
        2
    } else if crate::text::str_starts_with(arg, "-Xss") {
        3
    } else if crate::text::str_starts_with(arg, "-Xmn") {
        4
    } else {
        5
    }
}

/// Removes conflicting JVM flags: of the garbage collector selectors, and
/// of each of `-Xmx`, `-Xms`, `-Xss` and `-Xmn`, only the last one given
/// stays; every other flag stays, and the order is kept.
pub fn dedup_jvm_args(args: &Vec<String>) -> (r: Vec<String>)
    ensures
        str_views(r@) == dedup_jvm_spec(str_views(args@)),
{
    let ghost a = str_views(args@);
    let mut last: Vec<Option<usize>> = vec![None, None, None, None, None];
    let mut i: usize = 0;
    while i < args.len()
        invariant
            i <= args@.len(),
            a == str_views(args@),
            last@.len() == 5,
            forall|g: int|
                0 <= g < 5 ==> match #[trigger] last@[g] {
                    Some(k) => k < i && jvm_group(a[k as int]) == Some(g as nat) && forall|j: int|
                        k < j < i ==> jvm_group(#[trigger] a[j]) != Some(g as nat),
                    None => forall|j: int| 0 <= j < i ==> jvm_group(#[trigger] a[j]) != Some(g as nat),
                },
        decreases args.len() - i,
    {
        let g = jvm_group_code(args[i].as_str());
        assert(a[i as int] == args@[i as int]@);
        if g < 5 {
            last.set(g, Some(i));
        }
        i = i + 1;
    }
    let mut out: Vec<String> = Vec::new();
    let mut i: usize = 0;
    assert(str_views(out@) =~= Seq::<Seq<char>>::empty());
    while i < args.len()
        invariant
            i <= args@.len(),
            a == str_views(args@),
            last@.len() == 5,
            forall|g: int|
                0 <= g < 5 ==> match #[trigger] last@[g] {
                    Some(k) => k < a.len() && jvm_group(a[k as int]) == Some(g as nat) && forall|j: int|
                        k < j < a.len() ==> jvm_group(#[trigger] a[j]) != Some(g as nat),
                    None => forall|j: int| 0 <= j < a.len() ==> jvm_group(#[trigger] a[j]) != Some(g as nat),
                },
            str_views(out@) == kept_upto(a, i as nat),
        decreases args.len() - i,
    {
        let g = jvm_group_code(args[i].as_str());
        assert(a[i as int] == args@[i as int]@);
        let keep = if g < 5 {
            match last[g] {
                Some(k) => k == i,
                None => false,
            }
        } else {
            true
        };
        assert(keep == keep_arg(a, i as int)) by {
            if g < 5 {
                assert(last@[g as int] == last[g as int]);
            }
        }
        if keep {
            let ghost before = str_views(out@);
            out.push(args[i].clone());
            assert(str_views(out@) =~= before.push(a[i as int]));
        }
        i = i + 1;
    }
    out
}

/// No two flags of `s` are in the same group.
pub open spec fn groups_exclusive(s: Seq<Seq<char>>) -> bool {
    forall|p: int, q: int|
        0 <= p < q < s.len() && (#[trigger] jvm_group(s[p])) is Some ==> jvm_group(s[p]) != jvm_group(
            #[trigger] s[q],
        )
}

/// `x` is a flag among the first `n` that is kept.
pub open spec fn kept_flag(args: Seq<Seq<char>>, n: nat, x: Seq<char>) -> bool {
    exists|k: int| 0 <= k < n && keep_arg(args, k) && args[k] == x
}

/// Every flag that stays is a flag of the input that is kept.
proof fn lemma_kept_origin(args: Seq<Seq<char>>, n: nat)
    requires
        n <= args.len(),
    ensures
        forall|m: int| 0 <= m < kept_upto(args, n).len() ==> kept_flag(args, n, #[trigger] kept_upto(args, n)[m]),
    decreases n,
{
    if n > 0 {
        lemma_kept_origin(args, (n - 1) as nat);
        let prev = kept_upto(args, (n - 1) as nat);
        assert forall|m: int| 0 <= m < kept_upto(args, n).len() implies kept_flag(
            args,
            n,
            #[trigger] kept_upto(args, n)[m],
        ) by {
            if m < prev.len() {
                assert(kept_upto(args, n)[m] == prev[m]);
                assert(kept_flag(args, (n - 1) as nat, prev[m]));
                let k = choose|k: int| 0 <= k < n - 1 && keep_arg(args, k) && args[k] == prev[m];
                assert(0 <= k < n && keep_arg(args, k) && args[k] == kept_upto(args, n)[m]);
            } else {
                assert(kept_upto(args, n)[m] == args[n - 1]);
                assert(0 <= n - 1 < n && keep_arg(args, n - 1) && args[n - 1] == kept_upto(args, n)[m]);
            }
        }
    }
}

/// After conflicts are removed, no two JVM flags are in the same group:
/// at most one garbage collector selector and at most one of each of
/// `-Xmx`, `-Xms`, `-Xss` and `-Xmn`.
pub proof fn lemma_dedup_jvm_exclusive(args: Seq<Seq<char>>)
    ensures
        groups_exclusive(dedup_jvm_spec(args)),
{
    lemma_kept_exclusive(args, args.len());
}

proof fn lemma_kept_exclusive(args: Seq<Seq<char>>, n: nat)
    requires
        n <= args.len(),
    ensures
        groups_exclusive(kept_upto(args, n)),
    decreases n,
{
    if n > 0 {
        lemma_kept_exclusive(args, (n - 1) as nat);
        lemma_kept_origin(args, (n - 1) as nat);
        let prev = kept_upto(args, (n - 1) as nat);
        if keep_arg(args, n - 1) {
            let cur = prev.push(args[n - 1]);
            assert forall|p: int, q: int|
                0 <= p < q < cur.len() && (#[trigger] jvm_group(cur[p])) is Some implies jvm_group(cur[p])
                != jvm_group(#[trigger] cur[q]) by {
                if q == prev.len() {
                    assert(cur[p] == prev[p]);
                    assert(kept_flag(args, (n - 1) as nat, prev[p]));
                    let k = choose|k: int| 0 <= k < n - 1 && keep_arg(args, k) && args[k] == prev[p];
                    assert(jvm_group(args[n - 1]) != jvm_group(args[k]));
                } else {
                    assert(cur[p] == prev[p] && cur[q] == prev[q]);
                }
            }
        }
    }
}

/// Removing conflicts keeps every flag that is in no group, and the last
/// flag given of each group.
pub proof fn lemma_dedup_jvm_keeps(args: Seq<Seq<char>>, k: int)
    requires
        0 <= k < args.len(),
        keep_arg(args, k),
    ensures
        dedup_jvm_spec(args).contains(args[k]),
{
    lemma_kept_contains(args, args.len(), k);
}

proof fn lemma_kept_contains(args: Seq<Seq<char>>, n: nat, k: int)
    requires
        0 <= k < n <= args.len(),
        keep_arg(args, k),
    ensures
        kept_upto(args, n).contains(args[k]),
    decreases n,
{
    let prev = kept_upto(args, (n - 1) as nat);
    if k == n - 1 {
        assert(kept_upto(args, n)[prev.len() as int] == args[k]);
    } else {
        lemma_kept_contains(args, (n - 1) as nat, k);
        let m = choose|m: int| 0 <= m < prev.len() && prev[m] == args[k];
        assert(kept_upto(args, n)[m] == args[k]);
    }
}

/// The positions among the first `n` flags that stay, in order.
pub open spec fn kept_positions(args: Seq<Seq<char>>, n: nat) -> Seq<int>
    decreases n,
{
    if n == 0 {
        Seq::empty()
    } else {
        let prev = kept_positions(args, (n - 1) as nat);
        if keep_arg(args, n - 1) {
            prev.push(n - 1)
        } else {
            prev
        }
    }
}

proof fn lemma_kept_positions(args: Seq<Seq<char>>, n: nat)
    requires
        n <= args.len(),
    ensures
        kept_upto(args, n) == kept_positions(args, n).map_values(|i: int| args[i]),
        forall|p: int, q: int|
            0 <= p < q < kept_positions(args, n).len() ==> kept_positions(args, n)[p] < kept_positions(
                args,
                n,
            )[q],
        forall|m: int|
            0 <= m < kept_positions(args, n).len() ==> 0 <= #[trigger] kept_positions(args, n)[m] < n,
        forall|i: int| 0 <= i < n ==> (keep_arg(args, i) <==> kept_positions(args, n).contains(i)),
    decreases n,
{
    if n > 0 {
        lemma_kept_positions(args, (n - 1) as nat);
        let prev = kept_positions(args, (n - 1) as nat);
        let cur = kept_positions(args, n);
        assert forall|i: int| 0 <= i < n implies (keep_arg(args, i) <==> cur.contains(i)) by {
            if keep_arg(args, n - 1) {
                if i < n - 1 {
                    if cur.contains(i) {
                        let m = choose|m: int| 0 <= m < cur.len() && cur[m] == i;
                        if m < prev.len() {
                            assert(prev[m] == i);
                        }
                    }
                    if prev.contains(i) {
                        let m = choose|m: int| 0 <= m < prev.len() && prev[m] == i;
                        assert(cur[m] == i);
                    }
                } else {
                    assert(cur[prev.len() as int] == i);
                }
            } else if i == n - 1 {
                if prev.contains(i) {
                    let m = choose|m: int| 0 <= m < prev.len() && prev[m] == i;
                }
            }
        }
        assert(kept_upto(args, n) =~= cur.map_values(|i: int| args[i]));
    }
}

proof fn lemma_exclusive_kept_all(s: Seq<Seq<char>>, n: nat)
    requires
        n <= s.len(),
        groups_exclusive(s),
    ensures
        kept_upto(s, n) == s.take(n as int),
    decreases n,
{
    if n > 0 {
        lemma_exclusive_kept_all(s, (n - 1) as nat);
        let i = n - 1;
        assert(keep_arg(s, i)) by {
            if jvm_group(s[i]) is Some {
                assert forall|j: int| i < j < s.len() implies jvm_group(#[trigger] s[j]) != jvm_group(s[i]) by {
                    assert(jvm_group(s[i]) != jvm_group(s[j]));
                }
            }
        }
        assert(s.take((n - 1) as int).push(s[i]) =~= s.take(n as int));
    }
}

/// Removing conflicting JVM flags keeps, in their order, exactly the flags
/// in no group and the last flag given of each group (the positions that
/// `kept_positions` lists), and removing them again changes nothing.
pub proof fn lemma_dedup_jvm_subsequence(args: Seq<Seq<char>>)
    ensures
        dedup_jvm_spec(args) == kept_positions(args, args.len()).map_values(|i: int| args[i]),
        forall|p: int, q: int|
            0 <= p < q < kept_positions(args, args.len()).len() ==> kept_positions(args, args.len())[p]
                < kept_positions(args, args.len())[q],
        forall|m: int|
            0 <= m < kept_positions(args, args.len()).len() ==> 0 <= #[trigger] kept_positions(
                args,
                args.len(),
            )[m] < args.len(),
        forall|i: int|
            0 <= i < args.len() ==> (keep_arg(args, i) <==> kept_positions(args, args.len()).contains(i)),
        dedup_jvm_spec(dedup_jvm_spec(args)) == dedup_jvm_spec(args),
{
    lemma_kept_positions(args, args.len());
    let d = dedup_jvm_spec(args);
    lemma_dedup_jvm_exclusive(args);
    lemma_exclusive_kept_all(d, d.len());
    assert(d.take(d.len() as int) =~= d);
}

/// The heap and directory flags the launcher adds after a version's own.
pub open spec fn launcher_jvm_flags(ctx: LaunchContext) -> Seq<Seq<char>> {
    seq![
        "-Xmx"@ + ctx.xmx@,
        "-Xms"@ + ctx.xms@,
        "-Dminecraft.applet.TargetDirectory="@ + ctx.game_dir@,
        "-Dfml.ignorePatchDiscrepancies=true"@,
        "-Dfml.ignoreInvalidMinecraftCertificates=true"@,
    ]
}

/// Flags that go before `-cp`: those the Java version needs, then on macOS
/// the directories for extracted native code.
pub open spec fn pre_classpath_flags(ctx: LaunchContext) -> Seq<Seq<char>> {
    compat_args_spec(effective_java_major(ctx)) + if ctx.platform.os == HostOs::MacOs {
        seq![
            "-Djna.tmpdir="@ + ctx.natives_dir@,
            "-Dorg.lwjgl.system.SharedLibraryExtractPath="@ + ctx.natives_dir@,
            "-Dio.netty.native.workdir="@ + ctx.natives_dir@,
        ]
    } else {
        Seq::empty()
    }
}

/// Index of the first `x` in `s`, or the length of `s` without one.
pub open spec fn first_index_of(s: Seq<Seq<char>>, x: Seq<char>) -> int
    decreases s.len(),
{
    if s.len() == 0 {
        0
    } else if s[0] == x {
        0
    } else {
        1 + first_index_of(s.drop_first(), x)
    }
}

/// `xs` inserted into `s` before index `pos`.
pub open spec fn insert_all(s: Seq<Seq<char>>, pos: int, xs: Seq<Seq<char>>) -> Seq<Seq<char>> {
    s.take(pos) + xs + s.skip(pos)
}

/// The JVM arguments of the newer format: the version's, then the default
/// user ones, then the launcher's, with conflicts removed (the later wins),
/// and the flags for the Java and system inserted before `-cp`.
pub open spec fn modern_jvm_args(
    ctx: LaunchContext,
    a: crate::mc_types::McArguments,
    vars: Seq<(Seq<char>, Seq<char>)>,
) -> Seq<Seq<char>> {
    let p = ctx.platform;
    let base = collect_spec(a.jvm@, vars, p) + match a.default_user_jvm {
        Some(d) => collect_spec(d@, vars, p),
        None => Seq::empty(),
    } + launcher_jvm_flags(ctx);
    let jvm = dedup_jvm_spec(base);
    insert_all(jvm, first_index_of(jvm, "-cp"@), pre_classpath_flags(ctx))
}

/// The arguments of the older format up to the main class.
pub open spec fn legacy_jvm_args(ctx: LaunchContext, classpath: Seq<char>) -> Seq<Seq<char>> {
    seq![
        "-Xmx"@ + ctx.xmx@,
        "-Xms"@ + ctx.xms@,
        "-Dminecraft.applet.TargetDirectory="@ + ctx.game_dir@,
        "-Dfml.ignorePatchDiscrepancies=true"@,
        "-Dfml.ignoreInvalidMinecraftCertificates=true"@,
        "-Djava.library.path="@ + ctx.natives_dir@,
        "-cp"@,
        classpath,
        ctx.version.main_class@,
    ]
}

/// All arguments of the launch command.
pub open spec fn launch_args_spec(ctx: LaunchContext, nosig_exists: bool) -> Seq<Seq<char>> {
    let cp = classpath_string(ctx, nosig_exists);
    let vars = vars_spec(ctx, cp);
    match ctx.version.arguments {
        Some(a) => modern_jvm_args(ctx, a, vars).push(ctx.version.main_class@) + collect_spec(
            a.game@,
            vars,
            ctx.platform,
        ),
        None => legacy_jvm_args(ctx, cp) + match ctx.version.minecraft_arguments {
            Some(m) => words(m@).map_values(|w: Seq<char>| resolve_spec(w, vars)),
            None => Seq::empty(),
        },
    }
}

/// The concatenation of two strings.
pub fn concat_str(a: &str, b: &str) -> (r: String)
    ensures
        r@ == a@ + b@,
{
    let mut v = chars_of(a);
    crate::text::push_str_chars(&mut v, b);
    string_of(v.as_slice())
}

/// Index of the first `x` in `v`, or its length.
pub fn position_of(v: &Vec<String>, x: &str) -> (r: usize)
    ensures
        r as int == first_index_of(str_views(v@), x@),
        r <= v@.len(),
{
    let ghost s = str_views(v@);
    let mut i: usize = 0;
    assert(s.skip(0) =~= s);
    while i < v.len()
        invariant
            i <= v@.len(),
            s == str_views(v@),
            first_index_of(s, x@) == i + first_index_of(s.skip(i as int), x@),
        decreases v.len() - i,
    {
        assert(s.skip(i as int)[0] == v@[i as int]@);
        if str_eq(v[i].as_str(), x) {
            return i;
        }
        assert(s.skip(i as int).drop_first() =~= s.skip(i + 1));
        i = i + 1;
    }
    i
}

/// Inserts `xs` into `v` before index `pos`.
pub fn insert_strings(v: &mut Vec<String>, pos: usize, xs: Vec<String>)
    requires
        pos <= old(v)@.len(),
    ensures
        str_views(final(v)@) == insert_all(str_views(old(v)@), pos as int, str_views(xs@)),
{
    let ghost s = str_views(v@);
    let mut xs = xs;
    let ghost xv = str_views(xs@);
    let mut rest = v.split_off(pos);
    assert(str_views(v@) =~= s.take(pos as int));
    assert(str_views(rest@) =~= s.skip(pos as int));
    v.append(&mut xs);
    v.append(&mut rest);
    assert(str_views(v@) =~= s.take(pos as int) + xv + s.skip(pos as int));
}

/// Appends the strings of `more`.
fn append_strings(out: &mut Vec<String>, more: Vec<String>)
    ensures
        str_views(final(out)@) == str_views(old(out)@) + str_views(more@),
{
    let mut more = more;
    let ghost m = more@;
    out.append(&mut more);
    assert(str_views(out@) =~= str_views(old(out)@) + str_views(m));
}

/// The first index of an entry lies within the sequence, or just past it.
pub proof fn lemma_first_index_bound(s: Seq<Seq<char>>, x: Seq<char>)
    ensures
        0 <= first_index_of(s, x) <= s.len(),
    decreases s.len(),
{
    if s.len() > 0 && s[0] != x {
        lemma_first_index_bound(s.drop_first(), x);
    }
}

impl LaunchContext {
    /// The flags that go before `-cp`: those the Java version needs, then
    /// on macOS the directories for extracted native code.
    pub fn pre_classpath_args(&self) -> (r: Vec<String>)
        ensures
            str_views(r@) == pre_classpath_flags(*self),
    {
        let mut compat = self.java_compat_args();
        if self.platform.os == HostOs::MacOs {
            let ghost before = str_views(compat@);
            let natives = self.natives_dir.as_str();
            compat.push(concat_str("-Djna.tmpdir=", natives));
            compat.push(concat_str("-Dorg.lwjgl.system.SharedLibraryExtractPath=", natives));
            compat.push(concat_str("-Dio.netty.native.workdir=", natives));
            assert(str_views(compat@) =~= pre_classpath_flags(*self));
        } else {
            assert(str_views(compat@) =~= pre_classpath_flags(*self));
        }
        compat
    }

    /// The command that starts the game: Java run in the game directory,
    /// with the JVM arguments, the main class and the game arguments, every
    /// placeholder replaced. `nosig_exists` tells whether the version's
    /// `-nosig` jar exists.
    pub fn build_command(&self, nosig_exists: bool) -> (r: LaunchCommand)
        ensures
            r.program@ == self.java_path@,
            r.current_dir@ == self.game_dir@,
            str_views(r.args@) == launch_args_spec(*self, nosig_exists),
    {
        let classpath = self.build_classpath(nosig_exists);
        let vars = self.build_vars(classpath.as_str());
        let ghost pv = pairs_view(vars@);
        let mut args: Vec<String>;
        match &self.version.arguments {
            Some(arguments) => {
                let mut all = collect_args(&arguments.jvm, &vars, &self.platform);
                let ghost part1 = str_views(all@);
                if let Some(defaults) = &arguments.default_user_jvm {
                    append_strings(&mut all, collect_args(defaults, &vars, &self.platform));
                } else {
                    assert(str_views(all@) =~= part1 + Seq::<Seq<char>>::empty());
                }
                let ghost part2 = str_views(all@);
                all.push(concat_str("-Xmx", self.xmx.as_str()));
                all.push(concat_str("-Xms", self.xms.as_str()));
                all.push(concat_str("-Dminecraft.applet.TargetDirectory=", self.game_dir.as_str()));
                all.push(String::from_str("-Dfml.ignorePatchDiscrepancies=true"));
                all.push(String::from_str("-Dfml.ignoreInvalidMinecraftCertificates=true"));
                assert(str_views(all@) =~= part2 + launcher_jvm_flags(*self));
                let mut jvm = dedup_jvm_args(&all);
                let ghost deduped = str_views(jvm@);
                let compat = self.pre_classpath_args();
                if compat.len() > 0 {
                    let pos = position_of(&jvm, "-cp");
                    insert_strings(&mut jvm, pos, compat);
                } else {
                    proof {
                        lemma_first_index_bound(deduped, "-cp"@);
                        let pos = first_index_of(deduped, "-cp"@);
                        assert(insert_all(deduped, pos, str_views(compat@)) =~= deduped);
                    }
                }
                assert(str_views(jvm@) == modern_jvm_args(*self, *arguments, pv));
                args = jvm;
                let ghost before = str_views(args@);
                args.push(self.version.main_class.clone());
                assert(str_views(args@) =~= before.push(self.version.main_class@));
                append_strings(&mut args, collect_args(&arguments.game, &vars, &self.platform));
            },
            None => {
                args = Vec::new();
                args.push(concat_str("-Xmx", self.xmx.as_str()));
                args.push(concat_str("-Xms", self.xms.as_str()));
                args.push(concat_str("-Dminecraft.applet.TargetDirectory=", self.game_dir.as_str()));
                args.push(String::from_str("-Dfml.ignorePatchDiscrepancies=true"));
                args.push(String::from_str("-Dfml.ignoreInvalidMinecraftCertificates=true"));
                args.push(concat_str("-Djava.library.path=", self.natives_dir.as_str()));
                args.push(String::from_str("-cp"));
                args.push(classpath.clone());
                args.push(self.version.main_class.clone());
                let ghost head = str_views(args@);
                assert(head =~= legacy_jvm_args(*self, classpath@));
                match &self.version.minecraft_arguments {
                    Some(m) => {
                        let mc = chars_of(m.as_str());
                        let ws = split_words(mc.as_slice());
                        let ghost all_words = views(ws@);
                        let ghost whole = all_words.map_values(|w: Seq<char>| resolve_spec(w, pv));
                        let mut k: usize = 0;
                        assert(str_views(args@) =~= head + whole.take(0));
                        while k < ws.len()
                            invariant
                                k <= ws@.len(),
                                all_words == views(ws@),
                                pv == pairs_view(vars@),
                                whole == all_words.map_values(|w: Seq<char>| resolve_spec(w, pv)),
                                str_views(args@) == head + whole.take(k as int),
                            decreases ws.len() - k,
                        {
                            let w = string_of(ws[k].as_slice());
                            let a = resolve_argument(w.as_str(), &vars);
                            let ghost mid = str_views(args@);
                            args.push(a);
                            assert(str_views(args@) =~= mid.push(a@));
                            assert(whole.take(k + 1) =~= whole.take(k as int).push(whole[k as int]));
                            k = k + 1;
                        }
                        assert(whole.take(k as int) =~= whole);
                    },
                    None => {
                        assert(str_views(args@) =~= head + Seq::<Seq<char>>::empty());
                    },
                }
            },
        }
        LaunchCommand { program: self.java_path.clone(), current_dir: self.game_dir.clone(), args }
    }
}

/// In the newer format the flags for the Java and the system stand
/// directly before the first `-cp`, in order.
pub proof fn lemma_compat_flags_before_classpath(
    ctx: LaunchContext,
    a: crate::mc_types::McArguments,
    vars: Seq<(Seq<char>, Seq<char>)>,
    jvm: Seq<Seq<char>>,
)
    requires
        jvm == dedup_jvm_spec(
            collect_spec(a.jvm@, vars, ctx.platform) + match a.default_user_jvm {
                Some(d) => collect_spec(d@, vars, ctx.platform),
                None => Seq::empty(),
            } + launcher_jvm_flags(ctx),
        ),
        jvm.contains("-cp"@),
    ensures
        ({
            let pos = first_index_of(jvm, "-cp"@);
            let flags = pre_classpath_flags(ctx);
            let r = modern_jvm_args(ctx, a, vars);
            &&& forall|k: int| 0 <= k < flags.len() ==> r[pos + k] == flags[k]
            &&& r[pos + flags.len()] == "-cp"@
            &&& forall|k: int| 0 <= k < pos ==> r[k] != "-cp"@
        }),
{
    lemma_first_index_facts(jvm, "-cp"@);
}

/// Where the first occurrence is.
proof fn lemma_first_index_facts(s: Seq<Seq<char>>, x: Seq<char>)
    requires
        s.contains(x),
    ensures
        0 <= first_index_of(s, x) < s.len(),
        s[first_index_of(s, x)] == x,
        forall|k: int| 0 <= k < first_index_of(s, x) ==> s[k] != x,
    decreases s.len(),
{
    if s[0] != x {
        let k = choose|k: int| 0 <= k < s.len() && s[k] == x;
        assert(s.drop_first()[k - 1] == x);
        lemma_first_index_facts(s.drop_first(), x);
        assert forall|k: int| 0 <= k < first_index_of(s, x) implies s[k] != x by {
            if k > 0 {
                assert(s[k] == s.drop_first()[k - 1]);
            }
        }
    }
}

/// The entries of `paths` whose flag in `present` is false.
pub open spec fn missing_spec(paths: Seq<Seq<char>>, present: Seq<bool>) -> Seq<Seq<char>>
    decreases paths.len(),
{
    if paths.len() == 0 {
        Seq::empty()
    } else {
        let rest = missing_spec(paths.drop_last(), present);
        if present[paths.len() - 1] {
            rest
        } else {
            rest.push(paths.last())
        }
    }
}

/// The missing entries are exactly the entries flagged absent, in their
/// order: each flagged entry is listed, each listed entry is a flagged one,
/// none are listed when all are present and all when none are.
pub proof fn lemma_missing_exactly(paths: Seq<Seq<char>>, present: Seq<bool>)
    requires
        paths.len() <= present.len(),
    ensures
        forall|i: int|
            0 <= i < paths.len() && !present[i] ==> missing_spec(paths, present).contains(#[trigger] paths[i]),
        forall|m: int|
            0 <= m < missing_spec(paths, present).len() ==> exists|i: int|
                0 <= i < paths.len() && !present[i] && paths[i] == #[trigger] missing_spec(paths, present)[m],
        (forall|i: int| 0 <= i < paths.len() ==> #[trigger] present[i]) ==> missing_spec(paths, present).len()
            == 0,
        (forall|i: int| 0 <= i < paths.len() ==> !#[trigger] present[i]) ==> missing_spec(paths, present)
            == paths,
    decreases paths.len(),
{
    if paths.len() > 0 {
        let dl = paths.drop_last();
        let n = paths.len() - 1;
        lemma_missing_exactly(dl, present);
        let rest = missing_spec(dl, present);
        let r = missing_spec(paths, present);
        assert forall|i: int| 0 <= i < paths.len() && !present[i] implies r.contains(#[trigger] paths[i]) by {
            if i < n {
                assert(dl[i] == paths[i]);
                assert(rest.contains(dl[i]));
                let m = choose|m: int| 0 <= m < rest.len() && rest[m] == dl[i];
                assert(r[m] == paths[i]);
            } else {
                assert(r[rest.len() as int] == paths[i]);
            }
        }
        assert forall|m: int| 0 <= m < r.len() implies exists|i: int|
            0 <= i < paths.len() && !present[i] && paths[i] == #[trigger] r[m] by {
            if m < rest.len() {
                assert(r[m] == rest[m]);
                let i = choose|i: int| 0 <= i < dl.len() && !present[i] && dl[i] == rest[m];
                assert(paths[i] == dl[i]);
            } else {
                assert(r[m] == paths[n]);
            }
        }
        if forall|i: int| 0 <= i < paths.len() ==> !#[trigger] present[i] {
            assert(forall|i: int| 0 <= i < dl.len() ==> !#[trigger] present[i]);
            assert(!present[n]);
            assert(rest.push(paths.last()) =~= paths);
        }
        if forall|i: int| 0 <= i < paths.len() ==> #[trigger] present[i] {
            assert(forall|i: int| 0 <= i < dl.len() ==> #[trigger] present[i]);
            assert(present[n]);
        }
    }
}

impl LaunchContext {
    /// The classpath entries whose files are missing, given for each entry
    /// of [`LaunchContext::classpath_paths`] whether its file exists.
    pub fn missing_classpath_files(&self, nosig_exists: bool, present: &Vec<bool>) -> (r: Vec<String>)
        requires
            present@.len() == classpath_spec(*self, nosig_exists).len(),
        ensures
            str_views(r@) == missing_spec(classpath_spec(*self, nosig_exists), present@),
    {
        let classpath = self.classpath_paths(nosig_exists);
        let mut out: Vec<String> = Vec::new();
        let mut i: usize = 0;
        assert(str_views(classpath@).take(0) =~= Seq::<Seq<char>>::empty());
        assert(str_views(out@) =~= Seq::<Seq<char>>::empty());
        while i < classpath.len()
            invariant
                i <= classpath@.len(),
                present@.len() == classpath@.len(),
                str_views(out@) == missing_spec(str_views(classpath@).take(i as int), present@),
            decreases classpath.len() - i,
        {
            let ghost t = str_views(classpath@).take(i + 1);
            assert(t.drop_last() =~= str_views(classpath@).take(i as int));
            assert(t.last() == classpath@[i as int]@);
            if !present[i] {
                let ghost before = str_views(out@);
                out.push(classpath[i].clone());
                assert(str_views(out@) =~= before.push(classpath@[i as int]@));
            }
            i = i + 1;
        }
        assert(str_views(classpath@).take(i as int) =~= str_views(classpath@));
        out
    }
}

/// The asset index the game is told to load is the version's own asset
/// index: `${assets_index_name}` stands for the id of the version's
/// `assetIndex` (`legacy` when it has none), whatever the version's id, and
/// a template around it gets that id in its place.
pub proof fn lemma_assets_index_placeholder(ctx: LaunchContext, classpath: Seq<char>, pre: Seq<char>, post: Seq<char>)
    ensures
        crate::mc_parser::var_value(vars_spec(ctx, classpath), "assets_index_name"@) == match ctx.version.asset_index {
            Some(a) => a.id@,
            None => "legacy"@,
        },
        crate::mc_parser::substitute(seq![pre, post], seq![Some("assets_index_name"@)], vars_spec(ctx, classpath))
            == pre + match ctx.version.asset_index {
            Some(a) => a.id@,
            None => "legacy"@,
        } + post,
{
    reveal_with_fuel(crate::mc_parser::pair_lookup, 14);
    reveal_with_fuel(crate::mc_parser::substitute, 3);
    reveal_strlit("assets_index_name");
    reveal_strlit("auth_player_name");
    reveal_strlit("auth_uuid");
    reveal_strlit("auth_access_token");
    reveal_strlit("auth_session");
    reveal_strlit("clientid");
    reveal_strlit("auth_xuid");
    reveal_strlit("user_type");
    reveal_strlit("user_properties");
    reveal_strlit("user_property_map");
    reveal_strlit("version_name");
    reveal_strlit("game_directory");
    reveal_strlit("assets_root");
    let key = "assets_index_name"@;
    assert("auth_access_token"@[1] != key[1]);
    assert("auth_player_name"@.len() != key.len());
    assert("auth_uuid"@.len() != key.len());
    assert("auth_session"@.len() != key.len());
    assert("clientid"@.len() != key.len());
    assert("auth_xuid"@.len() != key.len());
    assert("user_type"@.len() != key.len());
    assert("user_properties"@.len() != key.len());
    assert("user_property_map"@[0] != key[0]);
    assert("version_name"@.len() != key.len());
    assert("game_directory"@.len() != key.len());
    assert("assets_root"@.len() != key.len());
    let vars = vars_spec(ctx, classpath);
    let v = crate::mc_parser::var_value(vars, key);
    let rest = seq![post];
    assert(seq![pre, post].drop_first() =~= rest);
    assert(seq![Some(key)].drop_first() =~= Seq::<Option<Seq<char>>>::empty());
    assert(crate::mc_parser::substitute(rest, Seq::<Option<Seq<char>>>::empty(), vars) == post + crate::mc_parser::substitute(
        Seq::<Seq<char>>::empty(),
        Seq::<Option<Seq<char>>>::empty(),
        vars,
    ));
    assert(post + Seq::<char>::empty() =~= post);
}

/// An argument guarded only by rules that ask for launcher features (such
/// as `--demo`, which asks for `is_demo_user`) is left out of the launch
/// command.
pub proof fn lemma_feature_gated_argument_dropped(
    c: crate::mc_types::McConditionalArgument,
    vars: Seq<(Seq<char>, Seq<char>)>,
    p: Platform,
)
    requires
        c.rules@.len() > 0,
        forall|i: int| 0 <= i < c.rules@.len() ==> crate::mc_parser::asks_for_feature(#[trigger] c.rules@[i]),
    ensures
        item_args(McArgumentItem::Conditional(c), vars, p) == Seq::<Seq<char>>::empty(),
{
    crate::mc_parser::lemma_feature_gated_rules_deny(c.rules@, p);
}

/// The placeholders of the launch arguments stand for the launch's own
/// values: the player, the version's id and type, the game, assets,
/// natives and libraries folders, and the classpath built for the launch.
#[verifier::rlimit(60)]
pub proof fn lemma_placeholder_values(ctx: LaunchContext, classpath: Seq<char>)
    ensures
        crate::mc_parser::var_value(vars_spec(ctx, classpath), "auth_player_name"@) == ctx.auth_player_name@,
        crate::mc_parser::var_value(vars_spec(ctx, classpath), "auth_uuid"@) == ctx.auth_uuid@,
        crate::mc_parser::var_value(vars_spec(ctx, classpath), "auth_access_token"@) == ctx.auth_access_token@,
        crate::mc_parser::var_value(vars_spec(ctx, classpath), "version_name"@) == ctx.version.id@,
        crate::mc_parser::var_value(vars_spec(ctx, classpath), "game_directory"@) == ctx.game_dir@,
        crate::mc_parser::var_value(vars_spec(ctx, classpath), "assets_root"@) == ctx.assets_dir@,
        crate::mc_parser::var_value(vars_spec(ctx, classpath), "game_assets"@) == ctx.assets_dir@,
        crate::mc_parser::var_value(vars_spec(ctx, classpath), "version_type"@) == ctx.version.version_type@,
        crate::mc_parser::var_value(vars_spec(ctx, classpath), "natives_directory"@) == ctx.natives_dir@,
        crate::mc_parser::var_value(vars_spec(ctx, classpath), "classpath"@) == classpath,
        crate::mc_parser::var_value(vars_spec(ctx, classpath), "library_directory"@) == ctx.libraries_dir@,
{
    assert(crate::mc_parser::var_value(vars_spec(ctx, classpath), "auth_player_name"@) == ctx.auth_player_name@) by {
        reveal_with_fuel(crate::mc_parser::pair_lookup, 2);
        reveal_strlit("auth_player_name");
    }
    assert(crate::mc_parser::var_value(vars_spec(ctx, classpath), "auth_uuid"@) == ctx.auth_uuid@) by {
        reveal_with_fuel(crate::mc_parser::pair_lookup, 3);
        reveal_strlit("auth_uuid");
        reveal_strlit("auth_player_name");
        assert("auth_player_name"@.len() != "auth_uuid"@.len());
    }
    assert(crate::mc_parser::var_value(vars_spec(ctx, classpath), "auth_access_token"@) == ctx.auth_access_token@) by {
        reveal_with_fuel(crate::mc_parser::pair_lookup, 4);
        reveal_strlit("auth_access_token");
        reveal_strlit("auth_player_name");
        assert("auth_player_name"@.len() != "auth_access_token"@.len());
        reveal_strlit("auth_uuid");
        assert("auth_uuid"@.len() != "auth_access_token"@.len());
    }
    assert(crate::mc_parser::var_value(vars_spec(ctx, classpath), "version_name"@) == ctx.version.id@) by {
        reveal_with_fuel(crate::mc_parser::pair_lookup, 11);
        reveal_strlit("version_name");
        reveal_strlit("auth_player_name");
        assert("auth_player_name"@.len() != "version_name"@.len());
        reveal_strlit("auth_uuid");
        assert("auth_uuid"@.len() != "version_name"@.len());
        reveal_strlit("auth_access_token");
        assert("auth_access_token"@.len() != "version_name"@.len());
        reveal_strlit("auth_session");
        assert("auth_session"@[0] != "version_name"@[0]);
        reveal_strlit("clientid");
        assert("clientid"@.len() != "version_name"@.len());
        reveal_strlit("auth_xuid");
        assert("auth_xuid"@.len() != "version_name"@.len());
        reveal_strlit("user_type");
        assert("user_type"@.len() != "version_name"@.len());
        reveal_strlit("user_properties");
        assert("user_properties"@.len() != "version_name"@.len());
        reveal_strlit("user_property_map");
        assert("user_property_map"@.len() != "version_name"@.len());
    }
    assert(crate::mc_parser::var_value(vars_spec(ctx, classpath), "game_directory"@) == ctx.game_dir@) by {
        reveal_with_fuel(crate::mc_parser::pair_lookup, 12);
        reveal_strlit("game_directory");
        reveal_strlit("auth_player_name");
        assert("auth_player_name"@.len() != "game_directory"@.len());
        reveal_strlit("auth_uuid");
        assert("auth_uuid"@.len() != "game_directory"@.len());
        reveal_strlit("auth_access_token");
        assert("auth_access_token"@.len() != "game_directory"@.len());
        reveal_strlit("auth_session");
        assert("auth_session"@.len() != "game_directory"@.len());
        reveal_strlit("clientid");
        assert("clientid"@.len() != "game_directory"@.len());
        reveal_strlit("auth_xuid");
        assert("auth_xuid"@.len() != "game_directory"@.len());
        reveal_strlit("user_type");
        assert("user_type"@.len() != "game_directory"@.len());
        reveal_strlit("user_properties");
        assert("user_properties"@.len() != "game_directory"@.len());
        reveal_strlit("user_property_map");
        assert("user_property_map"@.len() != "game_directory"@.len());
        reveal_strlit("version_name");
        assert("version_name"@.len() != "game_directory"@.len());
    }
    assert(crate::mc_parser::var_value(vars_spec(ctx, classpath), "assets_root"@) == ctx.assets_dir@) by {
        reveal_with_fuel(crate::mc_parser::pair_lookup, 13);
        reveal_strlit("assets_root");
        reveal_strlit("auth_player_name");
        assert("auth_player_name"@.len() != "assets_root"@.len());
        reveal_strlit("auth_uuid");
        assert("auth_uuid"@.len() != "assets_root"@.len());
        reveal_strlit("auth_access_token");
        assert("auth_access_token"@.len() != "assets_root"@.len());
        reveal_strlit("auth_session");
        assert("auth_session"@.len() != "assets_root"@.len());
        reveal_strlit("clientid");
        assert("clientid"@.len() != "assets_root"@.len());
        reveal_strlit("auth_xuid");
        assert("auth_xuid"@.len() != "assets_root"@.len());
        reveal_strlit("user_type");
        assert("user_type"@.len() != "assets_root"@.len());
        reveal_strlit("user_properties");
        assert("user_properties"@.len() != "assets_root"@.len());
        reveal_strlit("user_property_map");
        assert("user_property_map"@.len() != "assets_root"@.len());
        reveal_strlit("version_name");
        assert("version_name"@.len() != "assets_root"@.len());
        reveal_strlit("game_directory");
        assert("game_directory"@.len() != "assets_root"@.len());
    }
    assert(crate::mc_parser::var_value(vars_spec(ctx, classpath), "game_assets"@) == ctx.assets_dir@) by {
        reveal_with_fuel(crate::mc_parser::pair_lookup, 15);
        reveal_strlit("game_assets");
        reveal_strlit("auth_player_name");
        assert("auth_player_name"@.len() != "game_assets"@.len());
        reveal_strlit("auth_uuid");
        assert("auth_uuid"@.len() != "game_assets"@.len());
        reveal_strlit("auth_access_token");
        assert("auth_access_token"@.len() != "game_assets"@.len());
        reveal_strlit("auth_session");
        assert("auth_session"@.len() != "game_assets"@.len());
        reveal_strlit("clientid");
        assert("clientid"@.len() != "game_assets"@.len());
        reveal_strlit("auth_xuid");
        assert("auth_xuid"@.len() != "game_assets"@.len());
        reveal_strlit("user_type");
        assert("user_type"@.len() != "game_assets"@.len());
        reveal_strlit("user_properties");
        assert("user_properties"@.len() != "game_assets"@.len());
        reveal_strlit("user_property_map");
        assert("user_property_map"@.len() != "game_assets"@.len());
        reveal_strlit("version_name");
        assert("version_name"@.len() != "game_assets"@.len());
        reveal_strlit("game_directory");
        assert("game_directory"@.len() != "game_assets"@.len());
        reveal_strlit("assets_root");
        assert("assets_root"@[0] != "game_assets"@[0]);
        reveal_strlit("assets_index_name");
        assert("assets_index_name"@.len() != "game_assets"@.len());
    }
    assert(crate::mc_parser::var_value(vars_spec(ctx, classpath), "version_type"@) == ctx.version.version_type@) by {
        reveal_with_fuel(crate::mc_parser::pair_lookup, 16);
        reveal_strlit("version_type");
        reveal_strlit("auth_player_name");
        assert("auth_player_name"@.len() != "version_type"@.len());
        reveal_strlit("auth_uuid");
        assert("auth_uuid"@.len() != "version_type"@.len());
        reveal_strlit("auth_access_token");
        assert("auth_access_token"@.len() != "version_type"@.len());
        reveal_strlit("auth_session");
        assert("auth_session"@[0] != "version_type"@[0]);
        reveal_strlit("clientid");
        assert("clientid"@.len() != "version_type"@.len());
        reveal_strlit("auth_xuid");
        assert("auth_xuid"@.len() != "version_type"@.len());
        reveal_strlit("user_type");
        assert("user_type"@.len() != "version_type"@.len());
        reveal_strlit("user_properties");
        assert("user_properties"@.len() != "version_type"@.len());
        reveal_strlit("user_property_map");
        assert("user_property_map"@.len() != "version_type"@.len());
        reveal_strlit("version_name");
        assert("version_name"@[8] != "version_type"@[8]);
        reveal_strlit("game_directory");
        assert("game_directory"@.len() != "version_type"@.len());
        reveal_strlit("assets_root");
        assert("assets_root"@.len() != "version_type"@.len());
        reveal_strlit("assets_index_name");
        assert("assets_index_name"@.len() != "version_type"@.len());
        reveal_strlit("game_assets");
        assert("game_assets"@.len() != "version_type"@.len());
    }
    assert(crate::mc_parser::var_value(vars_spec(ctx, classpath), "natives_directory"@) == ctx.natives_dir@) by {
        reveal_with_fuel(crate::mc_parser::pair_lookup, 17);
        reveal_strlit("natives_directory");
        reveal_strlit("auth_player_name");
        assert("auth_player_name"@.len() != "natives_directory"@.len());
        reveal_strlit("auth_uuid");
        assert("auth_uuid"@.len() != "natives_directory"@.len());
        reveal_strlit("auth_access_token");
        assert("auth_access_token"@[0] != "natives_directory"@[0]);
        reveal_strlit("auth_session");
        assert("auth_session"@.len() != "natives_directory"@.len());
        reveal_strlit("clientid");
        assert("clientid"@.len() != "natives_directory"@.len());
        reveal_strlit("auth_xuid");
        assert("auth_xuid"@.len() != "natives_directory"@.len());
        reveal_strlit("user_type");
        assert("user_type"@.len() != "natives_directory"@.len());
        reveal_strlit("user_properties");
        assert("user_properties"@.len() != "natives_directory"@.len());
        reveal_strlit("user_property_map");
        assert("user_property_map"@[0] != "natives_directory"@[0]);
        reveal_strlit("version_name");
        assert("version_name"@.len() != "natives_directory"@.len());
        reveal_strlit("game_directory");
        assert("game_directory"@.len() != "natives_directory"@.len());
        reveal_strlit("assets_root");
        assert("assets_root"@.len() != "natives_directory"@.len());
        reveal_strlit("assets_index_name");
        assert("assets_index_name"@[0] != "natives_directory"@[0]);
        reveal_strlit("game_assets");
        assert("game_assets"@.len() != "natives_directory"@.len());
        reveal_strlit("version_type");
        assert("version_type"@.len() != "natives_directory"@.len());
    }
    assert(crate::mc_parser::var_value(vars_spec(ctx, classpath), "classpath"@) == classpath) by {
        reveal_with_fuel(crate::mc_parser::pair_lookup, 20);
        reveal_strlit("classpath");
        reveal_strlit("auth_player_name");
        assert("auth_player_name"@.len() != "classpath"@.len());
        reveal_strlit("auth_uuid");
        assert("auth_uuid"@[0] != "classpath"@[0]);
        reveal_strlit("auth_access_token");
        assert("auth_access_token"@.len() != "classpath"@.len());
        reveal_strlit("auth_session");
        assert("auth_session"@.len() != "classpath"@.len());
        reveal_strlit("clientid");
        assert("clientid"@.len() != "classpath"@.len());
        reveal_strlit("auth_xuid");
        assert("auth_xuid"@[0] != "classpath"@[0]);
        reveal_strlit("user_type");
        assert("user_type"@[0] != "classpath"@[0]);
        reveal_strlit("user_properties");
        assert("user_properties"@.len() != "classpath"@.len());
        reveal_strlit("user_property_map");
        assert("user_property_map"@.len() != "classpath"@.len());
        reveal_strlit("version_name");
        assert("version_name"@.len() != "classpath"@.len());
        reveal_strlit("game_directory");
        assert("game_directory"@.len() != "classpath"@.len());
        reveal_strlit("assets_root");
        assert("assets_root"@.len() != "classpath"@.len());
        reveal_strlit("assets_index_name");
        assert("assets_index_name"@.len() != "classpath"@.len());
        reveal_strlit("game_assets");
        assert("game_assets"@.len() != "classpath"@.len());
        reveal_strlit("version_type");
        assert("version_type"@.len() != "classpath"@.len());
        reveal_strlit("natives_directory");
        assert("natives_directory"@.len() != "classpath"@.len());
        reveal_strlit("launcher_name");
        assert("launcher_name"@.len() != "classpath"@.len());
        reveal_strlit("launcher_version");
        assert("launcher_version"@.len() != "classpath"@.len());
    }
    assert(crate::mc_parser::var_value(vars_spec(ctx, classpath), "library_directory"@) == ctx.libraries_dir@) by {
        reveal_with_fuel(crate::mc_parser::pair_lookup, 21);
        reveal_strlit("library_directory");
        reveal_strlit("auth_player_name");
        assert("auth_player_name"@.len() != "library_directory"@.len());
        reveal_strlit("auth_uuid");
        assert("auth_uuid"@.len() != "library_directory"@.len());
        reveal_strlit("auth_access_token");
        assert("auth_access_token"@[0] != "library_directory"@[0]);
        reveal_strlit("auth_session");
        assert("auth_session"@.len() != "library_directory"@.len());
        reveal_strlit("clientid");
        assert("clientid"@.len() != "library_directory"@.len());
        reveal_strlit("auth_xuid");
        assert("auth_xuid"@.len() != "library_directory"@.len());
        reveal_strlit("user_type");
        assert("user_type"@.len() != "library_directory"@.len());
        reveal_strlit("user_properties");
        assert("user_properties"@.len() != "library_directory"@.len());
        reveal_strlit("user_property_map");
        assert("user_property_map"@[0] != "library_directory"@[0]);
        reveal_strlit("version_name");
        assert("version_name"@.len() != "library_directory"@.len());
        reveal_strlit("game_directory");
        assert("game_directory"@.len() != "library_directory"@.len());
        reveal_strlit("assets_root");
        assert("assets_root"@.len() != "library_directory"@.len());
        reveal_strlit("assets_index_name");
        assert("assets_index_name"@[0] != "library_directory"@[0]);
        reveal_strlit("game_assets");
        assert("game_assets"@.len() != "library_directory"@.len());
        reveal_strlit("version_type");
        assert("version_type"@.len() != "library_directory"@.len());
        reveal_strlit("natives_directory");
        assert("natives_directory"@[0] != "library_directory"@[0]);
        reveal_strlit("launcher_name");
        assert("launcher_name"@.len() != "library_directory"@.len());
        reveal_strlit("launcher_version");
        assert("launcher_version"@.len() != "library_directory"@.len());
        reveal_strlit("classpath");
        assert("classpath"@.len() != "library_directory"@.len());
    }
}

} // verus!
