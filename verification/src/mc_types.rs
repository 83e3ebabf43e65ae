//! Data model of Mojang's version metadata, Java runtime manifests and
//! player profiles.
//!
//! JSON objects keyed by arbitrary strings are held as association lists
//! (`Vec<(String, T)>`) in the order in which they were read; lookups take
//! the first entry with the key.
use vstd::prelude::*;
use crate::text::{chars_of, str_eq, string_of};

verus! {

/// Index of Mojang's version manifest.
#[derive(Debug)]
pub struct McVersionInfo {
    pub latest: McLatestVersion,
    pub versions: Vec<McVersion>,
}

/// Ids of the latest release and snapshot.
#[derive(Debug)]
pub struct McLatestVersion {
    pub release: String,
    pub snapshot: String,
}

/// One entry of the version manifest.
#[derive(Debug)]
pub struct McVersion {
    pub id: String,
    pub version_type: String,
    pub url: String,
    pub time: String,
    pub release_time: String,
    pub sha1: String,
    pub compliance_level: i32,
}

/// A Minecraft account profile.
#[derive(Debug)]
pub struct McProfile {
    pub id: String,
    pub name: String,
    pub skins: Vec<McProfileSkin>,
    pub capes: Vec<McProfileCape>,
}

/// Whether a skin or cape is the one in use.
#[derive(Debug, Clone, Copy, PartialEq, Eq, Structural, Hash)]
pub enum McState {
    Active,
    Inactive,
}

/// Player model of a skin.
#[derive(Debug, Clone, Copy, PartialEq, Eq, Structural, Hash)]
pub enum McSkinVariant {
    Classic,
    Slim,
}

/// A skin of a profile.
#[derive(Debug)]
pub struct McProfileSkin {
    pub id: String,
    pub state: McState,
    pub texture_key: String,
    pub url: String,
    pub variant: McSkinVariant,
}

/// A cape of a profile.
#[derive(Debug)]
pub struct McProfileCape {
    pub id: String,
    pub state: McState,
    pub url: String,
    pub alias: String,
}

/// The full description of one game version (or of a mod loader profile).
#[derive(Debug)]
pub struct McSpecificVersionDetail {
    pub id: String,
    pub version_type: String,
    pub time: String,
    pub release_time: String,
    pub compliance_level: Option<i32>,
    pub minimum_launcher_version: Option<i32>,
    pub main_class: String,
    pub java_version: Option<McJavaVersion>,
    pub downloads: Option<McVersionDownloads>,
    pub asset_index: Option<McAssetIndex>,
    pub assets: Option<String>,
    pub logging: Option<Vec<(String, McLoggingConfig)>>,
    pub libraries: Vec<McLibrary>,
    pub arguments: Option<McArguments>,
    pub minecraft_arguments: Option<String>,
}

/// Java runtime a version asks for.
#[derive(Debug)]
pub struct McJavaVersion {
    pub component: String,
    pub major_version: i32,
}

/// Client and server jars of a version.
#[derive(Debug)]
pub struct McVersionDownloads {
    pub client: Option<McArtifactInfo>,
    pub server: Option<McArtifactInfo>,
}

/// Reference to a version's asset index.
#[derive(Debug)]
pub struct McAssetIndex {
    pub id: String,
    pub sha1: String,
    pub size: u64,
    pub total_size: u64,
    pub url: String,
}

/// Logging configuration of a version.
#[derive(Debug)]
pub struct McLoggingConfig {
    pub argument: String,
    pub file: McLogFile,
    pub log_type: String,
}

/// The logging configuration file.
#[derive(Debug)]
pub struct McLogFile {
    pub id: String,
    pub sha1: String,
    pub size: u64,
    pub url: String,
}

/// A library of a version.
#[derive(Debug)]
pub struct McLibrary {
    pub name: String,
    pub url: Option<String>,
    pub downloads: Option<McLibraryDownloads>,
    pub rules: Option<Vec<McRule>>,
    /// Old format (about 1.18 and before): OS name to classifier key, which
    /// may hold `${arch}`.
    pub natives: Option<Vec<(String, String)>>,
    /// Old format: extraction rules of the natives jar.
    pub extract: Option<McExtract>,
}

/// Extraction rules of a natives jar.
#[derive(Debug)]
pub struct McExtract {
    pub exclude: Vec<String>,
}

/// Downloads of a library: the main artifact and classifier artifacts.
#[derive(Debug)]
pub struct McLibraryDownloads {
    pub artifact: Option<McArtifactInfo>,
    pub classifiers: Option<Vec<(String, McArtifactInfo)>>,
}

/// A downloadable file.
#[derive(Debug)]
pub struct McArtifactInfo {
    pub path: Option<String>,
    pub sha1: String,
    pub size: u64,
    pub url: String,
}

/// What a rule does when it applies.
#[derive(Debug, Clone, Copy, PartialEq, Eq, Structural, Hash)]
pub enum McRuleAction {
    Allow,
    Disallow,
}

/// A conditional rule of a library or argument.
#[derive(Debug)]
pub struct McRule {
    pub action: McRuleAction,
    pub os: Option<McOsRule>,
    pub features: Option<McFeatureRule>,
}

/// Operating system condition of a rule.
#[derive(Debug)]
pub struct McOsRule {
    pub name: Option<String>,
    pub arch: Option<String>,
    pub version: Option<String>,
    pub version_range: Option<McVersionRange>,
}

/// Version range of an OS condition.
#[derive(Debug)]
pub struct McVersionRange {
    pub min: Option<String>,
    pub max: Option<String>,
}

/// Feature condition of a rule.
#[derive(Debug)]
pub struct McFeatureRule {
    pub is_demo_user: Option<bool>,
    pub has_custom_resolution: Option<bool>,
    pub has_quick_plays_support: Option<bool>,
    pub is_quick_play_singleplayer: Option<bool>,
    pub is_quick_play_multiplayer: Option<bool>,
    pub is_quick_play_realms: Option<bool>,
}

/// Launch arguments of the newer format.
#[derive(Debug)]
pub struct McArguments {
    pub default_user_jvm: Option<Vec<McArgumentItem>>,
    pub game: Vec<McArgumentItem>,
    pub jvm: Vec<McArgumentItem>,
}

/// One argument: plain or guarded by rules.
#[derive(Debug)]
pub enum McArgumentItem {
    Simple(String),
    Conditional(McConditionalArgument),
}

/// An argument guarded by rules.
#[derive(Debug)]
pub struct McConditionalArgument {
    pub rules: Vec<McRule>,
    pub value: McArgumentValue,
}

/// The value of a conditional argument.
#[derive(Debug)]
pub enum McArgumentValue {
    Single(String),
    Many(Vec<String>),
}

/// Java runtimes by platform, then by component.
pub type McJavaAll = Vec<(String, Vec<(String, Vec<McJavaRuntime>)>)>;

/// One Java runtime build.
#[derive(Debug)]
pub struct McJavaRuntime {
    pub availability: McJavaAvailability,
    pub manifest: McJavaManifestInfo,
    pub version: McJavaRuntimeVersion,
}

/// Rollout information of a runtime.
#[derive(Debug)]
pub struct McJavaAvailability {
    pub group: i32,
    pub progress: i32,
}

/// Where a runtime's file manifest is.
#[derive(Debug)]
pub struct McJavaManifestInfo {
    pub sha1: String,
    pub size: u64,
    pub url: String,
}

/// Version of a runtime.
#[derive(Debug)]
pub struct McJavaRuntimeVersion {
    pub name: String,
    pub released: String,
}

/// Files of a Java runtime, by relative path.
#[derive(Debug)]
pub struct McJavaManifest {
    pub files: Vec<(String, McJavaFileEntry)>,
}

/// One entry of a Java runtime manifest.
#[derive(Debug)]
pub enum McJavaFileEntry {
    File { executable: bool, downloads: McJavaFileDownloads },
    Directory,
    Link { target: String },
}

/// Downloads of a runtime file.
#[derive(Debug)]
pub struct McJavaFileDownloads {
    pub raw: McJavaDownloadInfo,
    pub lzma: Option<McJavaDownloadInfo>,
}

/// A downloadable runtime file.
#[derive(Debug)]
pub struct McJavaDownloadInfo {
    pub sha1: String,
    pub size: u64,
    pub url: String,
}

/// Objects of an asset index, by logical name.
#[derive(Debug)]
pub struct McAssetObjects {
    pub objects: Vec<(String, McAssetObject)>,
}

/// One asset object, stored by content hash.
#[derive(Debug)]
pub struct McAssetObject {
    pub hash: String,
    pub size: u64,
}

/// Number of bytes of the UTF-8 encoding of `c`.
pub open spec fn utf8_width(c: char) -> nat {
    if (c as u32) < 0x80 {
        1
    } else if (c as u32) < 0x800 {
        2
    } else if (c as u32) < 0x10000 {
        3
    } else {
        4
    }
}

/// Whether the first two bytes of the UTF-8 encoding of `s` end on a
/// character boundary (so `&s[..2]` is defined).
pub open spec fn has_two_byte_prefix(s: Seq<char>) -> bool {
    ||| (s.len() >= 2 && utf8_width(s[0]) == 1 && utf8_width(s[1]) == 1)
    ||| (s.len() >= 1 && utf8_width(s[0]) == 2)
}

/// The characters that make up the first two bytes of `s`.
pub open spec fn two_byte_prefix(s: Seq<char>) -> Seq<char> {
    if s.len() >= 1 && utf8_width(s[0]) == 2 {
        s.subrange(0, 1)
    } else {
        s.subrange(0, 2)
    }
}

/// Base of the asset download server.
pub const ASSET_SERVER: &'static str = "https://resources.download.minecraft.net/";

impl McAssetObject {
    /// URL of the object: the server, the first two bytes of the hash as a
    /// directory, then the hash.
    pub fn download_url(&self) -> (url: String)
        requires
            has_two_byte_prefix(self.hash@),
        ensures
            url@ == ASSET_SERVER@ + two_byte_prefix(self.hash@) + "/"@ + self.hash@,
    {
        let h = chars_of(self.hash.as_str());
        let c0 = h[0];
        let prefix_len: usize = if (c0 as u32) >= 0x80 { 1 } else { 2 };
        let mut pre: Vec<char> = Vec::new();
        pre.push(h[0]);
        if prefix_len == 2 {
            pre.push(h[1]);
        }
        assert(pre@ =~= two_byte_prefix(self.hash@));
        let mut url = String::from_str(ASSET_SERVER);
        let p = string_of(pre.as_slice());
        url.append(p.as_str());
        url.append("/");
        url.append(self.hash.as_str());
        url
    }
}

/// How two optional argument sets combine when a profile is layered on a
/// base version: both present appends the profile's game and JVM arguments
/// (the base keeps its `default_user_jvm`); only the profile's present takes
/// it; otherwise the base stays.
pub open spec fn merged_arguments_ok(
    base: Option<McArguments>,
    modded: Option<McArguments>,
    res: Option<McArguments>,
) -> bool {
    match (base, modded) {
        (Some(b), Some(m)) => res matches Some(r) && r.game@ == b.game@ + m.game@
            && r.jvm@ == b.jvm@ + m.jvm@ && r.default_user_jvm == b.default_user_jvm,
        (None, Some(m)) => res == Some(m),
        (b, None) => res == b,
    }
}

/// `Some` of the second wins over the first.
pub open spec fn override_with<T>(base: Option<T>, top: Option<T>) -> Option<T> {
    match top {
        Some(t) => Some(t),
        None => base,
    }
}

fn merge_arguments(base: Option<McArguments>, modded: Option<McArguments>) -> (res: Option<McArguments>)
    ensures
        merged_arguments_ok(base, modded, res),
{
    match base {
        Some(b) => match modded {
            Some(m) => {
                let McArguments { default_user_jvm, game, jvm } = b;
                let McArguments { default_user_jvm: _, game: mgame, jvm: mjvm } = m;
                let mut game = game;
                let mut jvm = jvm;
                let mut mgame = mgame;
                let mut mjvm = mjvm;
                game.append(&mut mgame);
                jvm.append(&mut mjvm);
                Some(McArguments { default_user_jvm, game, jvm })
            },
            None => Some(b),
        },
        None => modded,
    }
}

impl McSpecificVersionDetail {
    /// Layers a mod loader profile (`modded`) over this base version: the
    /// identity, type, times and main class come from the profile; optional
    /// fields the profile sets override; the profile's libraries come first,
    /// then the base's; arguments combine as `merged_arguments_ok` says; the
    /// compliance level and minimum launcher version stay the base's.
    pub fn merge(self, modded: Self) -> (res: Self)
        ensures
            res.id == modded.id,
            res.version_type == modded.version_type,
            res.time == modded.time,
            res.release_time == modded.release_time,
            res.main_class == modded.main_class,
            res.compliance_level == self.compliance_level,
            res.minimum_launcher_version == self.minimum_launcher_version,
            res.java_version == override_with(self.java_version, modded.java_version),
            res.downloads == override_with(self.downloads, modded.downloads),
            res.asset_index == override_with(self.asset_index, modded.asset_index),
            res.assets == override_with(self.assets, modded.assets),
            res.logging == override_with(self.logging, modded.logging),
            res.libraries@ == modded.libraries@ + self.libraries@,
            merged_arguments_ok(self.arguments, modded.arguments, res.arguments),
            res.minecraft_arguments == override_with(
                self.minecraft_arguments,
                modded.minecraft_arguments,
            ),
    {
        let McSpecificVersionDetail {
            id: _,
            version_type: _,
            time: _,
            release_time: _,
            compliance_level,
            minimum_launcher_version,
            main_class: _,
            java_version,
            downloads,
            asset_index,
            assets,
            logging,
            libraries,
            arguments,
            minecraft_arguments,
        } = self;
        let McSpecificVersionDetail {
            id: m_id,
            version_type: m_type,
            time: m_time,
            release_time: m_release_time,
            compliance_level: _,
            minimum_launcher_version: _,
            main_class: m_main_class,
            java_version: m_java_version,
            downloads: m_downloads,
            asset_index: m_asset_index,
            assets: m_assets,
            logging: m_logging,
            libraries: m_libraries,
            arguments: m_arguments,
            minecraft_arguments: m_minecraft_arguments,
        } = modded;
        let mut new_libs = m_libraries;
        let mut base_libs = libraries;
        new_libs.append(&mut base_libs);
        McSpecificVersionDetail {
            id: m_id,
            version_type: m_type,
            time: m_time,
            release_time: m_release_time,
            compliance_level,
            minimum_launcher_version,
            main_class: m_main_class,
            java_version: match m_java_version {
                Some(j) => Some(j),
                None => java_version,
            },
            downloads: match m_downloads {
                Some(d) => Some(d),
                None => downloads,
            },
            asset_index: match m_asset_index {
                Some(a) => Some(a),
                None => asset_index,
            },
            assets: match m_assets {
                Some(a) => Some(a),
                None => assets,
            },
            logging: match m_logging {
                Some(l) => Some(l),
                None => logging,
            },
            libraries: new_libs,
            arguments: merge_arguments(arguments, m_arguments),
            minecraft_arguments: match m_minecraft_arguments {
                Some(a) => Some(a),
                None => minecraft_arguments,
            },
        }
    }
}

/// Index of the first version whose id is `id`.
pub fn find_version(versions: &Vec<McVersion>, id: &str) -> (r: Option<usize>)
    ensures
        match r {
            Some(i) => i < versions@.len() && versions@[i as int].id@ == id@
                && forall|j: int| 0 <= j < i ==> versions@[j].id@ != id@,
            None => forall|j: int| 0 <= j < versions@.len() ==> versions@[j].id@ != id@,
        },
{
    let mut i: usize = 0;
    while i < versions.len()
        invariant
            i <= versions@.len(),
            forall|j: int| 0 <= j < i ==> versions@[j].id@ != id@,
        decreases versions.len() - i,
    {
        if str_eq(versions[i].id.as_str(), id) {
            return Some(i);
        }
        i = i + 1;
    }
    None
}

} // verus!
