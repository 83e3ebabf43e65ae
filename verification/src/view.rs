//! Decisions the launcher window makes: which Java runs an instance, how
//! settings are labelled, how play time and detail pages are shown, and
//! how Apple Silicon is handled before a launch.
use vstd::prelude::*;
use crate::mc_compat::{arm64_override_for, arm64_override_kind, override_matches, MacosArm64Override, OverrideKind};
use crate::mc_instance::InstanceConfig;
use crate::mc_parser::{supports_arm64_spec, version_supports_macos_arm64};
use crate::mc_types::McSpecificVersionDetail;
use crate::paths::{join, path_join};
use crate::settings::AppSettings;
use crate::text::{
    chars_of, decimal, decimal_string, join_strings, join_with, push_str_chars, str_eq, str_views, string_of,
    trim_chars, trim_spec,
};

verus! {

/// The label of the Java choice that follows the global settings.
pub const JAVA_MODE_LABEL_GLOBAL: &'static str = "Use Global Settings";

/// The label of the Java choice that uses Minecraft's runtime.
pub const JAVA_MODE_LABEL_MINECRAFT: &'static str = "Use Minecraft Runtime";

/// The label of the Java choice that uses a chosen executable.
pub const JAVA_MODE_LABEL_CUSTOM: &'static str = "Use Custom Java";

/// Stored value: follow the global settings.
pub const JAVA_MODE_GLOBAL: &'static str = "global";

/// Stored value: use Minecraft's runtime.
pub const JAVA_MODE_MINECRAFT: &'static str = "minecraft";

/// Stored value: use a chosen executable.
pub const JAVA_MODE_CUSTOM: &'static str = "custom";

/// The label of a stored Java choice; an empty or unknown value follows the
/// global settings for an instance, and Minecraft's runtime globally.
pub open spec fn java_mode_label_spec(mode: Seq<char>, is_instance: bool) -> Seq<char> {
    if mode == JAVA_MODE_CUSTOM@ {
        JAVA_MODE_LABEL_CUSTOM@
    } else if mode == JAVA_MODE_MINECRAFT@ {
        JAVA_MODE_LABEL_MINECRAFT@
    } else if is_instance {
        JAVA_MODE_LABEL_GLOBAL@
    } else {
        JAVA_MODE_LABEL_MINECRAFT@
    }
}

/// The label shown for a stored Java choice.
pub fn java_mode_to_label(mode: &str, is_instance: bool) -> (r: &'static str)
    ensures
        r@ == java_mode_label_spec(mode@, is_instance),
{
    if str_eq(mode, JAVA_MODE_CUSTOM) {
        JAVA_MODE_LABEL_CUSTOM
    } else if str_eq(mode, JAVA_MODE_MINECRAFT) {
        JAVA_MODE_LABEL_MINECRAFT
    } else if is_instance {
        JAVA_MODE_LABEL_GLOBAL
    } else {
        JAVA_MODE_LABEL_MINECRAFT
    }
}

/// The stored value of a chosen label (an unknown label follows the global
/// settings).
pub open spec fn java_label_mode_spec(label: Seq<char>) -> Seq<char> {
    if label == JAVA_MODE_LABEL_CUSTOM@ {
        JAVA_MODE_CUSTOM@
    } else if label == JAVA_MODE_LABEL_MINECRAFT@ {
        JAVA_MODE_MINECRAFT@
    } else {
        JAVA_MODE_GLOBAL@
    }
}

/// The stored value of a chosen label.
pub fn java_label_to_mode(label: &str) -> (r: &'static str)
    ensures
        r@ == java_label_mode_spec(label@),
{
    if str_eq(label, JAVA_MODE_LABEL_CUSTOM) {
        JAVA_MODE_CUSTOM
    } else if str_eq(label, JAVA_MODE_LABEL_MINECRAFT) {
        JAVA_MODE_MINECRAFT
    } else {
        JAVA_MODE_GLOBAL
    }
}

/// A stored choice read back through its label: custom and Minecraft stay;
/// everything else is the global choice for an instance.
pub proof fn lemma_java_mode_label_roundtrip(mode: Seq<char>)
    ensures
        java_label_mode_spec(java_mode_label_spec(mode, true)) == (if mode == JAVA_MODE_CUSTOM@ {
            JAVA_MODE_CUSTOM@
        } else if mode == JAVA_MODE_MINECRAFT@ {
            JAVA_MODE_MINECRAFT@
        } else {
            JAVA_MODE_GLOBAL@
        }),
{
    reveal_strlit("Use Global Settings");
    reveal_strlit("Use Minecraft Runtime");
    reveal_strlit("Use Custom Java");
    assert(JAVA_MODE_LABEL_GLOBAL@.len() == 19);
    assert(JAVA_MODE_LABEL_MINECRAFT@.len() == 21);
    assert(JAVA_MODE_LABEL_CUSTOM@.len() == 15);
}

/// Which Java runs the game.
#[derive(Debug)]
pub enum JavaSource {
    /// A chosen executable.
    CustomPath(String),
    /// The runtime the version asks for, from Minecraft.
    VersionDefault,
}

/// The plain value of a Java choice: the chosen path, or none for
/// Minecraft's runtime.
pub open spec fn source_view(s: JavaSource) -> Option<Seq<char>> {
    match s {
        JavaSource::CustomPath(p) => Some(p@),
        JavaSource::VersionDefault => None,
    }
}

/// Which Java runs an instance: the instance's own custom path (when set
/// and not blank) or Minecraft's runtime when it asks for one; otherwise
/// the global custom path (when set and not blank); otherwise Minecraft's
/// runtime. Paths are taken trimmed.
pub open spec fn java_source_spec(inst_mode: Seq<char>, inst_path: Seq<char>, mode: Seq<char>, path: Seq<char>) -> Option<Seq<char>> {
    if inst_mode == JAVA_MODE_CUSTOM@ && trim_spec(inst_path).len() > 0 {
        Some(trim_spec(inst_path))
    } else if inst_mode == JAVA_MODE_MINECRAFT@ {
        None
    } else if mode == JAVA_MODE_CUSTOM@ && trim_spec(path).len() > 0 {
        Some(trim_spec(path))
    } else {
        None
    }
}

/// Which Java runs an instance, from its settings and the global ones.
pub fn resolve_java_source(instance: &InstanceConfig, settings: &AppSettings) -> (r: JavaSource)
    ensures
        source_view(r) == java_source_spec(
            instance.java_mode@,
            instance.java_path@,
            settings.java_mode@,
            settings.java_path@,
        ),
{
    let ip = chars_of(instance.java_path.as_str());
    let it = trim_chars(ip.as_slice());
    if str_eq(instance.java_mode.as_str(), JAVA_MODE_CUSTOM) && it.len() > 0 {
        return JavaSource::CustomPath(string_of(it.as_slice()));
    }
    if str_eq(instance.java_mode.as_str(), JAVA_MODE_MINECRAFT) {
        return JavaSource::VersionDefault;
    }
    let gp = chars_of(settings.java_path.as_str());
    let gt = trim_chars(gp.as_slice());
    if str_eq(settings.java_mode.as_str(), JAVA_MODE_CUSTOM) && gt.len() > 0 {
        JavaSource::CustomPath(string_of(gt.as_slice()))
    } else {
        JavaSource::VersionDefault
    }
}

/// Play time as shown: nothing when none, else `<hours>h <minutes>m`.
pub open spec fn play_time_spec(secs: u64) -> Seq<char> {
    if secs == 0 {
        Seq::empty()
    } else {
        decimal((secs / 3600) as nat) + "h "@ + decimal(((secs % 3600) / 60) as nat) + "m"@
    }
}

/// Play time as shown in the instance list.
pub fn play_time_label(secs: u64) -> (r: String)
    ensures
        r@ == play_time_spec(secs),
{
    if secs == 0 {
        return String::new();
    }
    let h = decimal_string(secs / 3600);
    let m = decimal_string((secs % 3600) / 60);
    let mut v = chars_of(h.as_str());
    push_str_chars(&mut v, "h ");
    push_str_chars(&mut v, m.as_str());
    push_str_chars(&mut v, "m");
    string_of(v.as_slice())
}

/// The folder a detail page shows: the instance folder for `root`, its
/// `saves` for `worlds`, else the folder named by the page.
pub open spec fn category_dir_spec(instance_dir: Seq<char>, category: Seq<char>) -> Seq<char> {
    if category == "root"@ {
        instance_dir
    } else if category == "worlds"@ {
        path_join(instance_dir, "saves"@)
    } else {
        path_join(instance_dir, category)
    }
}

/// The folder a detail page shows.
pub fn detail_category_dir(instance_dir: &str, category: &str) -> (r: String)
    ensures
        r@ == category_dir_spec(instance_dir@, category@),
{
    if str_eq(category, "root") {
        String::from_str(instance_dir)
    } else if str_eq(category, "worlds") {
        join(instance_dir, "saves")
    } else {
        join(instance_dir, category)
    }
}

/// The tab of a detail page (-1 for none).
pub open spec fn category_tab_spec(category: Seq<char>) -> i32 {
    if category == "mods"@ {
        2
    } else if category == "resourcepacks"@ {
        3
    } else if category == "shaderpacks"@ {
        4
    } else if category == "saves"@ || category == "worlds"@ {
        6
    } else if category == "screenshots"@ {
        8
    } else {
        -1i32
    }
}

/// The tab of a detail page, to refresh after a change.
pub fn detail_category_tab(category: &str) -> (r: i32)
    ensures
        r == category_tab_spec(category@),
{
    if str_eq(category, "mods") {
        2
    } else if str_eq(category, "resourcepacks") {
        3
    } else if str_eq(category, "shaderpacks") {
        4
    } else if str_eq(category, "saves") || str_eq(category, "worlds") {
        6
    } else if str_eq(category, "screenshots") {
        8
    } else {
        -1
    }
}

/// Whether some entry is `x`.
fn has_entry(v: &Vec<String>, x: &str) -> (b: bool)
    ensures
        b == str_views(v@).contains(x@),
{
    let mut i: usize = 0;
    while i < v.len()
        invariant
            i <= v@.len(),
            forall|k: int| 0 <= k < i ==> str_views(v@)[k] != x@,
        decreases v.len() - i,
    {
        if str_eq(v[i].as_str(), x) {
            assert(str_views(v@)[i as int] == x@);
            return true;
        }
        i = i + 1;
    }
    false
}

/// For a chosen Java on Apple Silicon and a version without arm64 natives,
/// given the architectures of the executable: arm64 Java (or an unknown
/// one) gets the version's replacement layer; with no layer it must be able
/// to run x86_64, else the launch fails with the architectures joined by
/// `/`; x86_64-only Java runs without a layer.
pub open spec fn custom_java_compat_spec(v: McSpecificVersionDetail, archs: Seq<Seq<char>>) -> Result<Option<OverrideKind>, Seq<char>> {
    if archs.len() == 0 || archs.contains("arm64"@) {
        match arm64_override_kind(v) {
            Some(k) => Ok(Some(k)),
            None => if !archs.contains("x86_64"@) {
                Err(join_with(archs, "/"@))
            } else {
                Ok(None)
            },
        }
    } else {
        Ok(None)
    }
}

/// The replacement layer for a chosen Java on Apple Silicon (for a version
/// without arm64 natives), or the executable's architectures when it cannot
/// run the version.
pub fn custom_java_compat(version: &McSpecificVersionDetail, archs: &Vec<String>) -> (r: Result<Option<MacosArm64Override>, String>)
    ensures
        match (r, custom_java_compat_spec(*version, str_views(archs@))) {
            (Ok(o), Ok(k)) => override_matches(o, k),
            (Err(e), Err(m)) => e@ == m,
            _ => false,
        },
{
    let is_arm64 = archs.len() == 0 || has_entry(archs, "arm64");
    if is_arm64 {
        let compat = arm64_override_for(version);
        match compat {
            Some(ov) => Ok(Some(ov)),
            None => {
                if !has_entry(archs, "x86_64") {
                    Err(join_strings(archs, "/"))
                } else {
                    Ok(None)
                }
            },
        }
    } else {
        Ok(None)
    }
}

/// The required and actual Java versions when the chosen Java is too old
/// for the version.
pub fn java_too_old(actual: Option<i32>, required: Option<i32>) -> (r: Option<(i32, i32)>)
    ensures
        r == (match (actual, required) {
            (Some(a), Some(q)) => if a < q {
                Some((q, a))
            } else {
                None
            },
            _ => None,
        }),
{
    match (actual, required) {
        (Some(a), Some(q)) => if a < q {
            Some((q, a))
        } else {
            None
        },
        _ => None,
    }
}

/// How Minecraft's own Java is set up for a launch.
pub struct RuntimePlan {
    /// The runtime component to install.
    pub component: String,
    /// The platform to take it for.
    pub os_arch: String,
    /// The replacement layer, kept only if that platform's runtime is had.
    pub compat: Option<MacosArm64Override>,
    /// The Java major version it will be.
    pub java_major: Option<i32>,
}

/// The plan for Minecraft's Java: on Apple Silicon a version without arm64
/// natives but with a replacement layer, asking for Java 16 or later, runs
/// natively on the arm64 `java-runtime-gamma` (Java 17); a version without
/// arm64 natives otherwise runs its own runtime for `mac-os` (x86_64) with
/// no layer; anything else runs its own runtime (or `jre-legacy`) for the
/// native platform.
pub open spec fn runtime_plan_spec(v: McSpecificVersionDetail, is_arm_mac: bool, native: Seq<char>) -> (Seq<char>, Seq<char>, Option<OverrideKind>, Option<i32>) {
    let needs = is_arm_mac && !supports_arm64_spec(v);
    let kind = if needs {
        arm64_override_kind(v)
    } else {
        None
    };
    let required = match v.java_version {
        Some(j) => Some(j.major_version),
        None => None,
    };
    let component = match v.java_version {
        Some(j) => j.component@,
        None => "jre-legacy"@,
    };
    if kind is Some && (required matches Some(m) && m >= 16) {
        ("java-runtime-gamma"@, native, kind, Some(17i32))
    } else if needs {
        (component, "mac-os"@, None, required)
    } else {
        (component, native, None, required)
    }
}

/// How Minecraft's own Java is set up for a launch.
pub fn runtime_plan(version: &McSpecificVersionDetail, is_arm_mac: bool, native_arch: &str) -> (r: RuntimePlan)
    ensures
        ({
            let s = runtime_plan_spec(*version, is_arm_mac, native_arch@);
            &&& r.component@ == s.0
            &&& r.os_arch@ == s.1
            &&& override_matches(r.compat, s.2)
            &&& r.java_major == s.3
        }),
{
    let needs = is_arm_mac && !version_supports_macos_arm64(version);
    let compat = if needs {
        arm64_override_for(version)
    } else {
        None
    };
    let required: Option<i32> = match &version.java_version {
        Some(j) => Some(j.major_version),
        None => None,
    };
    let component: String = match &version.java_version {
        Some(j) => j.component.clone(),
        None => String::from_str("jre-legacy"),
    };
    let modern = match required {
        Some(m) => m >= 16,
        None => false,
    };
    if compat.is_some() && modern {
        RuntimePlan {
            component: String::from_str("java-runtime-gamma"),
            os_arch: String::from_str(native_arch),
            compat,
            java_major: Some(17),
        }
    } else if needs {
        RuntimePlan { component, os_arch: String::from_str("mac-os"), compat: None, java_major: required }
    } else {
        RuntimePlan { component, os_arch: String::from_str(native_arch), compat: None, java_major: required }
    }
}

/// The layer kept after installing the runtime: none when the runtime had
/// to be taken for another platform than the one asked for (x86_64 Java
/// cannot load arm64 natives).
pub fn layer_after_install(compat: Option<MacosArm64Override>, requested_arch: &str, used_arch: &str) -> (r: Option<MacosArm64Override>)
    ensures
        requested_arch@ == used_arch@ ==> r == compat,
        requested_arch@ != used_arch@ ==> r is None,
{
    if str_eq(requested_arch, used_arch) {
        compat
    } else {
        None
    }
}

/// The platform to try when a runtime is missing for `os_arch`: x86_64
/// (`mac-os`) for Apple Silicon, none otherwise.
pub fn runtime_fallback_arch(os_arch: &str) -> (r: Option<&'static str>)
    ensures
        os_arch@ == "mac-os-arm64"@ ==> (r matches Some(a) && a@ == "mac-os"@),
        os_arch@ != "mac-os-arm64"@ ==> r is None,
{
    if str_eq(os_arch, "mac-os-arm64") {
        Some("mac-os")
    } else {
        None
    }
}

/// The folder name of an installed runtime: the component, with the
/// platform added when it is not the native one.
pub fn runtime_dir_name(component: &str, os_arch: &str, native_arch: &str) -> (r: String)
    ensures
        r@ == (if os_arch@ == native_arch@ {
            component@
        } else {
            component@ + "-"@ + os_arch@
        }),
{
    if str_eq(os_arch, native_arch) {
        String::from_str(component)
    } else {
        let mut v = chars_of(component);
        push_str_chars(&mut v, "-");
        push_str_chars(&mut v, os_arch);
        string_of(v.as_slice())
    }
}

/// The name and id the game is started with: the signed-in profile's, or
/// `Player` with the nil id when there is none.
pub fn player_identity(profile: Option<(String, String)>) -> (r: (String, String))
    ensures
        match profile {
            Some((n, i)) => r.0@ == n@ && r.1@ == i@,
            None => r.0@ == "Player"@ && r.1@ == "00000000-0000-0000-0000-000000000000"@,
        },
{
    match profile {
        Some((n, i)) => (n, i),
        None => (String::from_str("Player"), String::from_str("00000000-0000-0000-0000-000000000000")),
    }
}

} // verus!

verus! {

/// The folder a detail tab lists, the extension its files have, and
/// whether folders are listed too: mods (`.jar`, no folders), resource
/// packs and shader packs (`.zip`, with folders); other tabs list no
/// folder entries.
pub open spec fn tab_listing_spec(tab: i32) -> Option<(Seq<char>, Seq<char>, bool)> {
    if tab == 2 {
        Some(("mods"@, ".jar"@, false))
    } else if tab == 3 {
        Some(("resourcepacks"@, ".zip"@, true))
    } else if tab == 4 {
        Some(("shaderpacks"@, ".zip"@, true))
    } else {
        None
    }
}

/// What a detail tab lists of an instance folder.
pub fn tab_listing(tab: i32) -> (r: Option<(&'static str, &'static str, bool)>)
    ensures
        match r {
            Some((d, e, a)) => tab_listing_spec(tab) == Some((d@, e@, a)),
            None => tab_listing_spec(tab) is None,
        },
{
    if tab == 2 {
        Some(("mods", ".jar", false))
    } else if tab == 3 {
        Some(("resourcepacks", ".zip", true))
    } else if tab == 4 {
        Some(("shaderpacks", ".zip", true))
    } else {
        None
    }
}

/// How many screenshots a detail page shows.
pub const SCREENSHOT_LIMIT: usize = 24;

/// Minecraft's own runtime is the one the version asks for: unless the
/// Apple Silicon replacement layer is used, the planned component is the
/// version's `javaVersion.component` (`jre-legacy` when it names none) and
/// the required Java is its major version; off Apple Silicon that runtime
/// is for the native platform, with no layer. With the layer, the runtime
/// is the native Java 17 `java-runtime-gamma`.
pub proof fn lemma_runtime_plan_follows_version(v: McSpecificVersionDetail, is_arm_mac: bool, native: Seq<char>)
    ensures
        runtime_plan_spec(v, is_arm_mac, native).2 is None ==> {
            &&& runtime_plan_spec(v, is_arm_mac, native).0 == match v.java_version {
                Some(j) => j.component@,
                None => "jre-legacy"@,
            }
            &&& runtime_plan_spec(v, is_arm_mac, native).3 == match v.java_version {
                Some(j) => Some(j.major_version),
                None => None::<i32>,
            }
        },
        !is_arm_mac ==> runtime_plan_spec(v, is_arm_mac, native).1 == native && runtime_plan_spec(
            v,
            is_arm_mac,
            native,
        ).2 is None,
        runtime_plan_spec(v, is_arm_mac, native).2 is Some ==> runtime_plan_spec(v, is_arm_mac, native).0
            == "java-runtime-gamma"@ && runtime_plan_spec(v, is_arm_mac, native).3 == Some(17i32)
            && runtime_plan_spec(v, is_arm_mac, native).1 == native,
        is_arm_mac && supports_arm64_spec(v) ==> runtime_plan_spec(v, is_arm_mac, native).1 == native
            && runtime_plan_spec(v, is_arm_mac, native).2 is None,
        is_arm_mac && !supports_arm64_spec(v) && runtime_plan_spec(v, is_arm_mac, native).2 is None
            ==> runtime_plan_spec(v, is_arm_mac, native).1 == "mac-os"@,
        is_arm_mac && !supports_arm64_spec(v) && arm64_override_kind(v) is Some && (v.java_version matches Some(
            j,
        ) && j.major_version >= 16) ==> runtime_plan_spec(v, is_arm_mac, native).2 == arm64_override_kind(v),
{
}

} // verus!
