//! Compatibility layers for old versions on Apple Silicon, and diagnosis of
//! graphics crashes from the game log.
use vstd::prelude::*;
use crate::mc_parser::{supports_arm64_spec, version_supports_macos_arm64};
use crate::mc_types::McSpecificVersionDetail;
use crate::text::{
    ascii_lower_seq, chars_of, contains_seq, contains_slice, has_prefix, is_prefix,
    lower_chars, str_eq,
};

verus! {

/// A replacement library file of a compatibility layer.
#[derive(Debug, Clone)]
pub struct CompatArtifact {
    pub rel_path: String,
    pub url: String,
    pub sha1: String,
    pub size: u64,
    /// Whether the file is a natives jar to extract rather than a classpath
    /// entry.
    pub extract: bool,
}

/// A set of libraries that replaces a version's own LWJGL on macOS.
#[derive(Debug, Clone)]
pub struct MacosArm64Override {
    pub name: String,
    /// Libraries whose maven coordinates start with one of these are left out.
    pub exclude_prefixes: Vec<String>,
    pub artifacts: Vec<CompatArtifact>,
}

/// The plain values of an artifact.
pub open spec fn artifact_view(a: CompatArtifact) -> (Seq<char>, Seq<char>, Seq<char>, u64, bool) {
    (a.rel_path@, a.url@, a.sha1@, a.size, a.extract)
}

/// The plain values of a list of artifacts.
pub open spec fn artifacts_view(v: Seq<CompatArtifact>) -> Seq<(Seq<char>, Seq<char>, Seq<char>, u64, bool)> {
    v.map_values(|a: CompatArtifact| artifact_view(a))
}

/// The views of a list of strings.
pub open spec fn strings_view(v: Seq<String>) -> Seq<Seq<char>> {
    v.map_values(|s: String| s@)
}

/// Whether `name` starts with one of `prefixes`.
pub open spec fn excluded_by(prefixes: Seq<Seq<char>>, name: Seq<char>) -> bool {
    exists|i: int| 0 <= i < prefixes.len() && is_prefix(#[trigger] prefixes[i], name)
}

impl MacosArm64Override {
    /// Whether the library `lib_name` is one this layer replaces.
    pub fn excludes(&self, lib_name: &str) -> (b: bool)
        ensures
            b == excluded_by(strings_view(self.exclude_prefixes@), lib_name@),
    {
        let n = chars_of(lib_name);
        let mut i: usize = 0;
        while i < self.exclude_prefixes.len()
            invariant
                i <= self.exclude_prefixes@.len(),
                n@ == lib_name@,
                forall|j: int| 0 <= j < i ==> !is_prefix(#[trigger] strings_view(self.exclude_prefixes@)[j], lib_name@),
            decreases self.exclude_prefixes.len() - i,
        {
            let p = chars_of(self.exclude_prefixes[i].as_str());
            assert(strings_view(self.exclude_prefixes@)[i as int] == self.exclude_prefixes@[i as int]@);
            if has_prefix(n.as_slice(), p.as_slice()) {
                assert(is_prefix(strings_view(self.exclude_prefixes@)[i as int], lib_name@));
                return true;
            }
            i = i + 1;
        }
        false
    }
}

fn artifact(rel_path: &str, url: &str, sha1: &str, size: u64, extract: bool) -> (a: CompatArtifact)
    ensures
        artifact_view(a) == (rel_path@, url@, sha1@, size, extract),
{
    CompatArtifact {
        rel_path: String::from_str(rel_path),
        url: String::from_str(url),
        sha1: String::from_str(sha1),
        size,
        extract,
    }
}

/// Artifacts of the `lwjgl3_arm64` layer.
pub open spec fn lwjgl3_arm64_table() -> Seq<(Seq<char>, Seq<char>, Seq<char>, u64, bool)> {
    seq![
        ("org/lwjgl/lwjgl/3.3.1/lwjgl-3.3.1.jar"@, "https://libraries.minecraft.net/org/lwjgl/lwjgl/3.3.1/lwjgl-3.3.1.jar"@, "ae58664f88e18a9bb2c77b063833ca7aaec484cb"@, 724243u64, false),
        ("org/lwjgl/lwjgl-jemalloc/3.3.1/lwjgl-jemalloc-3.3.1.jar"@, "https://libraries.minecraft.net/org/lwjgl/lwjgl-jemalloc/3.3.1/lwjgl-jemalloc-3.3.1.jar"@, "a817bcf213db49f710603677457567c37d53e103"@, 36601u64, false),
        ("org/lwjgl/lwjgl-openal/3.3.1/lwjgl-openal-3.3.1.jar"@, "https://libraries.minecraft.net/org/lwjgl/lwjgl-openal/3.3.1/lwjgl-openal-3.3.1.jar"@, "2623a6b8ae1dfcd880738656a9f0243d2e6840bd"@, 88237u64, false),
        ("org/lwjgl/lwjgl-opengl/3.3.1/lwjgl-opengl-3.3.1.jar"@, "https://libraries.minecraft.net/org/lwjgl/lwjgl-opengl/3.3.1/lwjgl-opengl-3.3.1.jar"@, "831a5533a21a5f4f81bbc51bb13e9899319b5411"@, 921563u64, false),
        ("org/lwjgl/lwjgl-glfw/3.3.1-mmachina.1/lwjgl-glfw-3.3.1-mmachina.1.jar"@, "https://github.com/MinecraftMachina/lwjgl3/releases/download/3.3.1-mmachina.1/lwjgl-glfw.jar"@, "e9a101bca4fa30d26b21b526ff28e7c2d8927f1b"@, 130128u64, false),
        ("org/lwjgl/lwjgl-stb/3.3.1/lwjgl-stb-3.3.1.jar"@, "https://libraries.minecraft.net/org/lwjgl/lwjgl-stb/3.3.1/lwjgl-stb-3.3.1.jar"@, "b119297cf8ed01f247abe8685857f8e7fcf5980f"@, 112380u64, false),
        ("org/lwjgl/lwjgl-tinyfd/3.3.1/lwjgl-tinyfd-3.3.1.jar"@, "https://libraries.minecraft.net/org/lwjgl/lwjgl-tinyfd/3.3.1/lwjgl-tinyfd-3.3.1.jar"@, "0ff1914111ef2e3e0110ef2dabc8d8cdaad82347"@, 6767u64, false),
        ("org/lwjgl/lwjgl/3.3.1/lwjgl-3.3.1-natives-macos-arm64.jar"@, "https://libraries.minecraft.net/org/lwjgl/lwjgl/3.3.1/lwjgl-3.3.1-natives-macos-arm64.jar"@, "71d0d5e469c9c95351eb949064497e3391616ac9"@, 42693u64, false),
        ("org/lwjgl/lwjgl-jemalloc/3.3.1/lwjgl-jemalloc-3.3.1-natives-macos-arm64.jar"@, "https://libraries.minecraft.net/org/lwjgl/lwjgl-jemalloc/3.3.1/lwjgl-jemalloc-3.3.1-natives-macos-arm64.jar"@, "e577b87d8ad2ade361aaea2fcf226c660b15dee8"@, 103475u64, false),
        ("org/lwjgl/lwjgl-openal/3.3.1/lwjgl-openal-3.3.1-natives-macos-arm64.jar"@, "https://libraries.minecraft.net/org/lwjgl/lwjgl-openal/3.3.1/lwjgl-openal-3.3.1-natives-macos-arm64.jar"@, "23d55e7490b57495320f6c9e1936d78fd72c4ef8"@, 346125u64, false),
        ("org/lwjgl/lwjgl-opengl/3.3.1/lwjgl-opengl-3.3.1-natives-macos-arm64.jar"@, "https://libraries.minecraft.net/org/lwjgl/lwjgl-opengl/3.3.1/lwjgl-opengl-3.3.1-natives-macos-arm64.jar"@, "eafe34b871d966292e8db0f1f3d6b8b110d4e91d"@, 41665u64, false),
        ("org/lwjgl/lwjgl-glfw/3.3.1/lwjgl-glfw-3.3.1-natives-macos-arm64.jar"@, "https://libraries.minecraft.net/org/lwjgl/lwjgl-glfw/3.3.1/lwjgl-glfw-3.3.1-natives-macos-arm64.jar"@, "cac0d3f712a3da7641fa174735a5f315de7ffe0a"@, 129077u64, false),
        ("org/lwjgl/lwjgl-stb/3.3.1/lwjgl-stb-3.3.1-natives-macos-arm64.jar"@, "https://libraries.minecraft.net/org/lwjgl/lwjgl-stb/3.3.1/lwjgl-stb-3.3.1-natives-macos-arm64.jar"@, "fcf073ed911752abdca5f0b00a53cfdf17ff8e8b"@, 178408u64, false),
        ("org/lwjgl/lwjgl-tinyfd/3.3.1/lwjgl-tinyfd-3.3.1-natives-macos-arm64.jar"@, "https://libraries.minecraft.net/org/lwjgl/lwjgl-tinyfd/3.3.1/lwjgl-tinyfd-3.3.1-natives-macos-arm64.jar"@, "972ecc17bad3571e81162153077b4d47b7b9eaa9"@, 41380u64, false),
        ("ca/weblite/java-objc-bridge/1.1/java-objc-bridge-1.1.jar"@, "https://libraries.minecraft.net/ca/weblite/java-objc-bridge/1.1/java-objc-bridge-1.1.jar"@, "1227f9e0666314f9de41477e3ec277e542ed7f7b"@, 1330045u64, false),
    ]
}

fn lwjgl3_arm64_artifacts() -> (v: Vec<CompatArtifact>)
    ensures
        artifacts_view(v@) == lwjgl3_arm64_table(),
{
    let mut v: Vec<CompatArtifact> = Vec::new();
    v.push(artifact("org/lwjgl/lwjgl/3.3.1/lwjgl-3.3.1.jar", "https://libraries.minecraft.net/org/lwjgl/lwjgl/3.3.1/lwjgl-3.3.1.jar", "ae58664f88e18a9bb2c77b063833ca7aaec484cb", 724243, false));
    v.push(artifact("org/lwjgl/lwjgl-jemalloc/3.3.1/lwjgl-jemalloc-3.3.1.jar", "https://libraries.minecraft.net/org/lwjgl/lwjgl-jemalloc/3.3.1/lwjgl-jemalloc-3.3.1.jar", "a817bcf213db49f710603677457567c37d53e103", 36601, false));
    v.push(artifact("org/lwjgl/lwjgl-openal/3.3.1/lwjgl-openal-3.3.1.jar", "https://libraries.minecraft.net/org/lwjgl/lwjgl-openal/3.3.1/lwjgl-openal-3.3.1.jar", "2623a6b8ae1dfcd880738656a9f0243d2e6840bd", 88237, false));
    v.push(artifact("org/lwjgl/lwjgl-opengl/3.3.1/lwjgl-opengl-3.3.1.jar", "https://libraries.minecraft.net/org/lwjgl/lwjgl-opengl/3.3.1/lwjgl-opengl-3.3.1.jar", "831a5533a21a5f4f81bbc51bb13e9899319b5411", 921563, false));
    v.push(artifact("org/lwjgl/lwjgl-glfw/3.3.1-mmachina.1/lwjgl-glfw-3.3.1-mmachina.1.jar", "https://github.com/MinecraftMachina/lwjgl3/releases/download/3.3.1-mmachina.1/lwjgl-glfw.jar", "e9a101bca4fa30d26b21b526ff28e7c2d8927f1b", 130128, false));
    v.push(artifact("org/lwjgl/lwjgl-stb/3.3.1/lwjgl-stb-3.3.1.jar", "https://libraries.minecraft.net/org/lwjgl/lwjgl-stb/3.3.1/lwjgl-stb-3.3.1.jar", "b119297cf8ed01f247abe8685857f8e7fcf5980f", 112380, false));
    v.push(artifact("org/lwjgl/lwjgl-tinyfd/3.3.1/lwjgl-tinyfd-3.3.1.jar", "https://libraries.minecraft.net/org/lwjgl/lwjgl-tinyfd/3.3.1/lwjgl-tinyfd-3.3.1.jar", "0ff1914111ef2e3e0110ef2dabc8d8cdaad82347", 6767, false));
    v.push(artifact("org/lwjgl/lwjgl/3.3.1/lwjgl-3.3.1-natives-macos-arm64.jar", "https://libraries.minecraft.net/org/lwjgl/lwjgl/3.3.1/lwjgl-3.3.1-natives-macos-arm64.jar", "71d0d5e469c9c95351eb949064497e3391616ac9", 42693, false));
    v.push(artifact("org/lwjgl/lwjgl-jemalloc/3.3.1/lwjgl-jemalloc-3.3.1-natives-macos-arm64.jar", "https://libraries.minecraft.net/org/lwjgl/lwjgl-jemalloc/3.3.1/lwjgl-jemalloc-3.3.1-natives-macos-arm64.jar", "e577b87d8ad2ade361aaea2fcf226c660b15dee8", 103475, false));
    v.push(artifact("org/lwjgl/lwjgl-openal/3.3.1/lwjgl-openal-3.3.1-natives-macos-arm64.jar", "https://libraries.minecraft.net/org/lwjgl/lwjgl-openal/3.3.1/lwjgl-openal-3.3.1-natives-macos-arm64.jar", "23d55e7490b57495320f6c9e1936d78fd72c4ef8", 346125, false));
    v.push(artifact("org/lwjgl/lwjgl-opengl/3.3.1/lwjgl-opengl-3.3.1-natives-macos-arm64.jar", "https://libraries.minecraft.net/org/lwjgl/lwjgl-opengl/3.3.1/lwjgl-opengl-3.3.1-natives-macos-arm64.jar", "eafe34b871d966292e8db0f1f3d6b8b110d4e91d", 41665, false));
    v.push(artifact("org/lwjgl/lwjgl-glfw/3.3.1/lwjgl-glfw-3.3.1-natives-macos-arm64.jar", "https://libraries.minecraft.net/org/lwjgl/lwjgl-glfw/3.3.1/lwjgl-glfw-3.3.1-natives-macos-arm64.jar", "cac0d3f712a3da7641fa174735a5f315de7ffe0a", 129077, false));
    v.push(artifact("org/lwjgl/lwjgl-stb/3.3.1/lwjgl-stb-3.3.1-natives-macos-arm64.jar", "https://libraries.minecraft.net/org/lwjgl/lwjgl-stb/3.3.1/lwjgl-stb-3.3.1-natives-macos-arm64.jar", "fcf073ed911752abdca5f0b00a53cfdf17ff8e8b", 178408, false));
    v.push(artifact("org/lwjgl/lwjgl-tinyfd/3.3.1/lwjgl-tinyfd-3.3.1-natives-macos-arm64.jar", "https://libraries.minecraft.net/org/lwjgl/lwjgl-tinyfd/3.3.1/lwjgl-tinyfd-3.3.1-natives-macos-arm64.jar", "972ecc17bad3571e81162153077b4d47b7b9eaa9", 41380, false));
    v.push(artifact("ca/weblite/java-objc-bridge/1.1/java-objc-bridge-1.1.jar", "https://libraries.minecraft.net/ca/weblite/java-objc-bridge/1.1/java-objc-bridge-1.1.jar", "1227f9e0666314f9de41477e3ec277e542ed7f7b", 1330045, false));
    assert(artifacts_view(v@) =~= lwjgl3_arm64_table());
    v
}

/// Artifacts of the `lwjgl3_x64` layer.
pub open spec fn lwjgl3_x64_table() -> Seq<(Seq<char>, Seq<char>, Seq<char>, u64, bool)> {
    seq![
        ("org/lwjgl/lwjgl/3.3.1/lwjgl-3.3.1.jar"@, "https://libraries.minecraft.net/org/lwjgl/lwjgl/3.3.1/lwjgl-3.3.1.jar"@, "ae58664f88e18a9bb2c77b063833ca7aaec484cb"@, 724243u64, false),
        ("org/lwjgl/lwjgl-jemalloc/3.3.1/lwjgl-jemalloc-3.3.1.jar"@, "https://libraries.minecraft.net/org/lwjgl/lwjgl-jemalloc/3.3.1/lwjgl-jemalloc-3.3.1.jar"@, "a817bcf213db49f710603677457567c37d53e103"@, 36601u64, false),
        ("org/lwjgl/lwjgl-openal/3.3.1/lwjgl-openal-3.3.1.jar"@, "https://libraries.minecraft.net/org/lwjgl/lwjgl-openal/3.3.1/lwjgl-openal-3.3.1.jar"@, "2623a6b8ae1dfcd880738656a9f0243d2e6840bd"@, 88237u64, false),
        ("org/lwjgl/lwjgl-opengl/3.3.1/lwjgl-opengl-3.3.1.jar"@, "https://libraries.minecraft.net/org/lwjgl/lwjgl-opengl/3.3.1/lwjgl-opengl-3.3.1.jar"@, "831a5533a21a5f4f81bbc51bb13e9899319b5411"@, 921563u64, false),
        ("org/lwjgl/lwjgl-glfw/3.3.1-mmachina.1/lwjgl-glfw-3.3.1-mmachina.1.jar"@, "https://github.com/MinecraftMachina/lwjgl3/releases/download/3.3.1-mmachina.1/lwjgl-glfw.jar"@, "e9a101bca4fa30d26b21b526ff28e7c2d8927f1b"@, 130128u64, false),
        ("org/lwjgl/lwjgl-stb/3.3.1/lwjgl-stb-3.3.1.jar"@, "https://libraries.minecraft.net/org/lwjgl/lwjgl-stb/3.3.1/lwjgl-stb-3.3.1.jar"@, "b119297cf8ed01f247abe8685857f8e7fcf5980f"@, 112380u64, false),
        ("org/lwjgl/lwjgl-tinyfd/3.3.1/lwjgl-tinyfd-3.3.1.jar"@, "https://libraries.minecraft.net/org/lwjgl/lwjgl-tinyfd/3.3.1/lwjgl-tinyfd-3.3.1.jar"@, "0ff1914111ef2e3e0110ef2dabc8d8cdaad82347"@, 6767u64, false),
        ("org/lwjgl/lwjgl/3.3.1/lwjgl-3.3.1-natives-macos.jar"@, "https://libraries.minecraft.net/org/lwjgl/lwjgl/3.3.1/lwjgl-3.3.1-natives-macos.jar"@, "fc6bb723dec2cd031557dccb2a95f0ab80acb9db"@, 55706u64, false),
        ("org/lwjgl/lwjgl-jemalloc/3.3.1/lwjgl-jemalloc-3.3.1-natives-macos.jar"@, "https://libraries.minecraft.net/org/lwjgl/lwjgl-jemalloc/3.3.1/lwjgl-jemalloc-3.3.1-natives-macos.jar"@, "56424dc8db3cfb8e7b594aa6d59a4f4387b7f544"@, 117480u64, false),
        ("org/lwjgl/lwjgl-openal/3.3.1/lwjgl-openal-3.3.1-natives-macos.jar"@, "https://libraries.minecraft.net/org/lwjgl/lwjgl-openal/3.3.1/lwjgl-openal-3.3.1-natives-macos.jar"@, "3a57b8911835fb58b5e558d0ca0d28157e263d45"@, 397196u64, false),
        ("org/lwjgl/lwjgl-opengl/3.3.1/lwjgl-opengl-3.3.1-natives-macos.jar"@, "https://libraries.minecraft.net/org/lwjgl/lwjgl-opengl/3.3.1/lwjgl-opengl-3.3.1-natives-macos.jar"@, "a0d12697ea019a7362eff26475b0531340e876a6"@, 40709u64, false),
        ("org/lwjgl/lwjgl-glfw/3.3.1/lwjgl-glfw-3.3.1-natives-macos.jar"@, "https://libraries.minecraft.net/org/lwjgl/lwjgl-glfw/3.3.1/lwjgl-glfw-3.3.1-natives-macos.jar"@, "9ec4ce1fc8c85fdef03ef4ff2aace6f5775fb280"@, 131655u64, false),
        ("org/lwjgl/lwjgl-stb/3.3.1/lwjgl-stb-3.3.1-natives-macos.jar"@, "https://libraries.minecraft.net/org/lwjgl/lwjgl-stb/3.3.1/lwjgl-stb-3.3.1-natives-macos.jar"@, "def8879b8d38a47a4cc1d48b1f9a7b772e51258e"@, 203582u64, false),
        ("org/lwjgl/lwjgl-tinyfd/3.3.1/lwjgl-tinyfd-3.3.1-natives-macos.jar"@, "https://libraries.minecraft.net/org/lwjgl/lwjgl-tinyfd/3.3.1/lwjgl-tinyfd-3.3.1-natives-macos.jar"@, "78641a0fa5e9afa714adfdd152c357930c97a1ce"@, 44821u64, false),
    ]
}

fn lwjgl3_x64_artifacts() -> (v: Vec<CompatArtifact>)
    ensures
        artifacts_view(v@) == lwjgl3_x64_table(),
{
    let mut v: Vec<CompatArtifact> = Vec::new();
    v.push(artifact("org/lwjgl/lwjgl/3.3.1/lwjgl-3.3.1.jar", "https://libraries.minecraft.net/org/lwjgl/lwjgl/3.3.1/lwjgl-3.3.1.jar", "ae58664f88e18a9bb2c77b063833ca7aaec484cb", 724243, false));
    v.push(artifact("org/lwjgl/lwjgl-jemalloc/3.3.1/lwjgl-jemalloc-3.3.1.jar", "https://libraries.minecraft.net/org/lwjgl/lwjgl-jemalloc/3.3.1/lwjgl-jemalloc-3.3.1.jar", "a817bcf213db49f710603677457567c37d53e103", 36601, false));
    v.push(artifact("org/lwjgl/lwjgl-openal/3.3.1/lwjgl-openal-3.3.1.jar", "https://libraries.minecraft.net/org/lwjgl/lwjgl-openal/3.3.1/lwjgl-openal-3.3.1.jar", "2623a6b8ae1dfcd880738656a9f0243d2e6840bd", 88237, false));
    v.push(artifact("org/lwjgl/lwjgl-opengl/3.3.1/lwjgl-opengl-3.3.1.jar", "https://libraries.minecraft.net/org/lwjgl/lwjgl-opengl/3.3.1/lwjgl-opengl-3.3.1.jar", "831a5533a21a5f4f81bbc51bb13e9899319b5411", 921563, false));
    v.push(artifact("org/lwjgl/lwjgl-glfw/3.3.1-mmachina.1/lwjgl-glfw-3.3.1-mmachina.1.jar", "https://github.com/MinecraftMachina/lwjgl3/releases/download/3.3.1-mmachina.1/lwjgl-glfw.jar", "e9a101bca4fa30d26b21b526ff28e7c2d8927f1b", 130128, false));
    v.push(artifact("org/lwjgl/lwjgl-stb/3.3.1/lwjgl-stb-3.3.1.jar", "https://libraries.minecraft.net/org/lwjgl/lwjgl-stb/3.3.1/lwjgl-stb-3.3.1.jar", "b119297cf8ed01f247abe8685857f8e7fcf5980f", 112380, false));
    v.push(artifact("org/lwjgl/lwjgl-tinyfd/3.3.1/lwjgl-tinyfd-3.3.1.jar", "https://libraries.minecraft.net/org/lwjgl/lwjgl-tinyfd/3.3.1/lwjgl-tinyfd-3.3.1.jar", "0ff1914111ef2e3e0110ef2dabc8d8cdaad82347", 6767, false));
    v.push(artifact("org/lwjgl/lwjgl/3.3.1/lwjgl-3.3.1-natives-macos.jar", "https://libraries.minecraft.net/org/lwjgl/lwjgl/3.3.1/lwjgl-3.3.1-natives-macos.jar", "fc6bb723dec2cd031557dccb2a95f0ab80acb9db", 55706, false));
    v.push(artifact("org/lwjgl/lwjgl-jemalloc/3.3.1/lwjgl-jemalloc-3.3.1-natives-macos.jar", "https://libraries.minecraft.net/org/lwjgl/lwjgl-jemalloc/3.3.1/lwjgl-jemalloc-3.3.1-natives-macos.jar", "56424dc8db3cfb8e7b594aa6d59a4f4387b7f544", 117480, false));
    v.push(artifact("org/lwjgl/lwjgl-openal/3.3.1/lwjgl-openal-3.3.1-natives-macos.jar", "https://libraries.minecraft.net/org/lwjgl/lwjgl-openal/3.3.1/lwjgl-openal-3.3.1-natives-macos.jar", "3a57b8911835fb58b5e558d0ca0d28157e263d45", 397196, false));
    v.push(artifact("org/lwjgl/lwjgl-opengl/3.3.1/lwjgl-opengl-3.3.1-natives-macos.jar", "https://libraries.minecraft.net/org/lwjgl/lwjgl-opengl/3.3.1/lwjgl-opengl-3.3.1-natives-macos.jar", "a0d12697ea019a7362eff26475b0531340e876a6", 40709, false));
    v.push(artifact("org/lwjgl/lwjgl-glfw/3.3.1/lwjgl-glfw-3.3.1-natives-macos.jar", "https://libraries.minecraft.net/org/lwjgl/lwjgl-glfw/3.3.1/lwjgl-glfw-3.3.1-natives-macos.jar", "9ec4ce1fc8c85fdef03ef4ff2aace6f5775fb280", 131655, false));
    v.push(artifact("org/lwjgl/lwjgl-stb/3.3.1/lwjgl-stb-3.3.1-natives-macos.jar", "https://libraries.minecraft.net/org/lwjgl/lwjgl-stb/3.3.1/lwjgl-stb-3.3.1-natives-macos.jar", "def8879b8d38a47a4cc1d48b1f9a7b772e51258e", 203582, false));
    v.push(artifact("org/lwjgl/lwjgl-tinyfd/3.3.1/lwjgl-tinyfd-3.3.1-natives-macos.jar", "https://libraries.minecraft.net/org/lwjgl/lwjgl-tinyfd/3.3.1/lwjgl-tinyfd-3.3.1-natives-macos.jar", "78641a0fa5e9afa714adfdd152c357930c97a1ce", 44821, false));
    assert(artifacts_view(v@) =~= lwjgl3_x64_table());
    v
}

/// Artifacts of the `lwjgl2_arm64` layer.
pub open spec fn lwjgl2_arm64_table() -> Seq<(Seq<char>, Seq<char>, Seq<char>, u64, bool)> {
    seq![
        ("org/lwjgl/lwjgl/lwjgl/2.9.4-nightly-20150209/lwjgl-2.9.4-nightly-20150209.jar"@, "https://libraries.minecraft.net/org/lwjgl/lwjgl/lwjgl/2.9.4-nightly-20150209/lwjgl-2.9.4-nightly-20150209.jar"@, "697517568c68e78ae0b4544145af031c81082dfe"@, 1047168u64, false),
        ("org/lwjgl/lwjgl/lwjgl_util/2.9.4-nightly-20150209/lwjgl_util-2.9.4-nightly-20150209.jar"@, "https://libraries.minecraft.net/org/lwjgl/lwjgl/lwjgl_util/2.9.4-nightly-20150209/lwjgl_util-2.9.4-nightly-20150209.jar"@, "d51a7c040a721d13efdfbd34f8b257b2df882ad0"@, 173887u64, false),
        ("org/lwjgl/lwjgl/lwjgl-platform/2.9.4-nightly-20150209/lwjgl-platform-2.9.4-nightly-20150209-natives-osx-arm64.jar"@, "https://github.com/MinecraftMachina/lwjgl/releases/download/2.9.4-20150209-mmachina.2/lwjgl-platform-2.9.4-nightly-20150209-natives-osx.jar"@, "eff546c0b319d6ffc7a835652124c18089c67f36"@, 488316u64, true),
        ("net/java/jinput/jinput-platform/2.0.5/jinput-platform-2.0.5-natives-osx-arm64.jar"@, "https://github.com/r58Playz/jinput-m1/raw/main/plugins/OSX/bin/jinput-platform-2.0.5.jar"@, "5189eb40db3087fb11ca063b68fa4f4c20b199dd"@, 10031u64, true),
    ]
}

fn lwjgl2_arm64_artifacts() -> (v: Vec<CompatArtifact>)
    ensures
        artifacts_view(v@) == lwjgl2_arm64_table(),
{
    let mut v: Vec<CompatArtifact> = Vec::new();
    v.push(artifact("org/lwjgl/lwjgl/lwjgl/2.9.4-nightly-20150209/lwjgl-2.9.4-nightly-20150209.jar", "https://libraries.minecraft.net/org/lwjgl/lwjgl/lwjgl/2.9.4-nightly-20150209/lwjgl-2.9.4-nightly-20150209.jar", "697517568c68e78ae0b4544145af031c81082dfe", 1047168, false));
    v.push(artifact("org/lwjgl/lwjgl/lwjgl_util/2.9.4-nightly-20150209/lwjgl_util-2.9.4-nightly-20150209.jar", "https://libraries.minecraft.net/org/lwjgl/lwjgl/lwjgl_util/2.9.4-nightly-20150209/lwjgl_util-2.9.4-nightly-20150209.jar", "d51a7c040a721d13efdfbd34f8b257b2df882ad0", 173887, false));
    v.push(artifact("org/lwjgl/lwjgl/lwjgl-platform/2.9.4-nightly-20150209/lwjgl-platform-2.9.4-nightly-20150209-natives-osx-arm64.jar", "https://github.com/MinecraftMachina/lwjgl/releases/download/2.9.4-20150209-mmachina.2/lwjgl-platform-2.9.4-nightly-20150209-natives-osx.jar", "eff546c0b319d6ffc7a835652124c18089c67f36", 488316, true));
    v.push(artifact("net/java/jinput/jinput-platform/2.0.5/jinput-platform-2.0.5-natives-osx-arm64.jar", "https://github.com/r58Playz/jinput-m1/raw/main/plugins/OSX/bin/jinput-platform-2.0.5.jar", "5189eb40db3087fb11ca063b68fa4f4c20b199dd", 10031, true));
    assert(artifacts_view(v@) =~= lwjgl2_arm64_table());
    v
}

/// `o` has the given name, excluded prefixes and artifacts.
pub open spec fn override_is(
    o: MacosArm64Override,
    name: Seq<char>,
    prefixes: Seq<Seq<char>>,
    table: Seq<(Seq<char>, Seq<char>, Seq<char>, u64, bool)>,
) -> bool {
    &&& o.name@ == name
    &&& strings_view(o.exclude_prefixes@) == prefixes
    &&& artifacts_view(o.artifacts@) == table
}

/// The compatibility layers.
#[derive(Debug, Clone, Copy, PartialEq, Eq, Structural)]
pub enum OverrideKind {
    /// LWJGL 3.3.1 with arm64 natives, for arm64 Java.
    Lwjgl3Arm64,
    /// LWJGL 3.3.1 with x86_64 natives, for x86_64 Java under Rosetta.
    Lwjgl3X64,
    /// Patched LWJGL 2.9.4 with arm64 natives, for arm64 Java.
    Lwjgl2Arm64,
}

/// The layer of each kind.
pub open spec fn is_override(o: MacosArm64Override, kind: OverrideKind) -> bool {
    match kind {
        OverrideKind::Lwjgl3Arm64 => override_is(
            o,
            "lwjgl3-3.3.1-arm64"@,
            seq!["org.lwjgl:"@, "ca.weblite:java-objc-bridge:"@],
            lwjgl3_arm64_table(),
        ),
        OverrideKind::Lwjgl3X64 => override_is(
            o,
            "lwjgl3-3.3.1-x64"@,
            seq!["org.lwjgl:"@],
            lwjgl3_x64_table(),
        ),
        OverrideKind::Lwjgl2Arm64 => override_is(
            o,
            "lwjgl2-2.9.4-arm64"@,
            seq!["org.lwjgl.lwjgl:"@, "net.java.jinput:jinput-platform:"@],
            lwjgl2_arm64_table(),
        ),
    }
}

/// The layer of the given kind.
pub fn override_of(kind: OverrideKind) -> (o: MacosArm64Override)
    ensures
        is_override(o, kind),
{
    match kind {
        OverrideKind::Lwjgl3Arm64 => {
            let mut p: Vec<String> = Vec::new();
            p.push(String::from_str("org.lwjgl:"));
            p.push(String::from_str("ca.weblite:java-objc-bridge:"));
            assert(strings_view(p@) =~= seq!["org.lwjgl:"@, "ca.weblite:java-objc-bridge:"@]);
            MacosArm64Override {
                name: String::from_str("lwjgl3-3.3.1-arm64"),
                exclude_prefixes: p,
                artifacts: lwjgl3_arm64_artifacts(),
            }
        },
        OverrideKind::Lwjgl3X64 => {
            let mut p: Vec<String> = Vec::new();
            p.push(String::from_str("org.lwjgl:"));
            assert(strings_view(p@) =~= seq!["org.lwjgl:"@]);
            MacosArm64Override {
                name: String::from_str("lwjgl3-3.3.1-x64"),
                exclude_prefixes: p,
                artifacts: lwjgl3_x64_artifacts(),
            }
        },
        OverrideKind::Lwjgl2Arm64 => {
            let mut p: Vec<String> = Vec::new();
            p.push(String::from_str("org.lwjgl.lwjgl:"));
            p.push(String::from_str("net.java.jinput:jinput-platform:"));
            assert(strings_view(p@) =~= seq!["org.lwjgl.lwjgl:"@, "net.java.jinput:jinput-platform:"@]);
            MacosArm64Override {
                name: String::from_str("lwjgl2-2.9.4-arm64"),
                exclude_prefixes: p,
                artifacts: lwjgl2_arm64_artifacts(),
            }
        },
    }
}

/// Whether some library of the version has maven coordinates starting
/// with `p`.
pub open spec fn has_lib_prefix(v: McSpecificVersionDetail, p: Seq<char>) -> bool {
    exists|i: int| 0 <= i < v.libraries@.len() && is_prefix(p, #[trigger] v.libraries@[i].name@)
}

/// Whether some library's coordinates start with `p`.
pub fn any_lib_prefix(v: &McSpecificVersionDetail, p: &str) -> (b: bool)
    ensures
        b == has_lib_prefix(*v, p@),
{
    let pv = chars_of(p);
    let mut i: usize = 0;
    while i < v.libraries.len()
        invariant
            i <= v.libraries@.len(),
            pv@ == p@,
            forall|j: int| 0 <= j < i ==> !is_prefix(p@, #[trigger] v.libraries@[j].name@),
        decreases v.libraries.len() - i,
    {
        let n = chars_of(v.libraries[i].name.as_str());
        if has_prefix(n.as_slice(), pv.as_slice()) {
            return true;
        }
        i = i + 1;
    }
    false
}

/// The layer that arm64 Java needs for a version: none when the version
/// has arm64 natives; LWJGL 3 for LWJGL 3 versions; LWJGL 2 for LWJGL 2
/// versions; otherwise none.
pub open spec fn arm64_override_kind(v: McSpecificVersionDetail) -> Option<OverrideKind> {
    if supports_arm64_spec(v) {
        None
    } else if has_lib_prefix(v, "org.lwjgl:"@) {
        Some(OverrideKind::Lwjgl3Arm64)
    } else if has_lib_prefix(v, "org.lwjgl.lwjgl:"@) {
        Some(OverrideKind::Lwjgl2Arm64)
    } else {
        None
    }
}

/// The layer for a version on macOS: as `arm64_override_kind` for arm64
/// Java; for x86_64 Java, the x64 LWJGL 3 layer for LWJGL 3 versions
/// without arm64 natives, otherwise none.
pub open spec fn macos_override_kind(v: McSpecificVersionDetail, arm64_java: bool) -> Option<OverrideKind> {
    if arm64_java {
        arm64_override_kind(v)
    } else if supports_arm64_spec(v) {
        None
    } else if has_lib_prefix(v, "org.lwjgl:"@) {
        Some(OverrideKind::Lwjgl3X64)
    } else {
        None
    }
}

/// `o` is the layer of `kind`, or both are absent.
pub open spec fn override_matches(o: Option<MacosArm64Override>, kind: Option<OverrideKind>) -> bool {
    match (o, kind) {
        (Some(o), Some(k)) => is_override(o, k),
        (None, None) => true,
        _ => false,
    }
}

/// The compatibility layer arm64 Java needs to run `version` natively.
pub fn arm64_override_for(version: &McSpecificVersionDetail) -> (r: Option<MacosArm64Override>)
    ensures
        override_matches(r, arm64_override_kind(*version)),
{
    if version_supports_macos_arm64(version) {
        return None;
    }
    if any_lib_prefix(version, "org.lwjgl:") {
        return Some(override_of(OverrideKind::Lwjgl3Arm64));
    }
    if any_lib_prefix(version, "org.lwjgl.lwjgl:") {
        return Some(override_of(OverrideKind::Lwjgl2Arm64));
    }
    None
}

/// The compatibility layer for `version` on macOS with arm64 or x86_64 Java.
pub fn macos_override_for(version: &McSpecificVersionDetail, arm64_java: bool) -> (r: Option<MacosArm64Override>)
    ensures
        override_matches(r, macos_override_kind(*version, arm64_java)),
{
    if arm64_java {
        return arm64_override_for(version);
    }
    if version_supports_macos_arm64(version) {
        return None;
    }
    if any_lib_prefix(version, "org.lwjgl:") {
        Some(override_of(OverrideKind::Lwjgl3X64))
    } else {
        None
    }
}

/// Advice shown for a matching crash.
pub const ADVICE_NO_HW_ACCEL: &'static str = "the GPU driver has no hardware-accelerated OpenGL \
    (common on older Intel HD graphics with outdated Windows drivers). \
    Update the GPU driver from the vendor website, then retry.";

/// Advice shown for a matching crash.
pub const ADVICE_GL_CORE: &'static str = "this Minecraft version requires OpenGL 3.2+ Core Profile \
    (mandatory since 1.17) and the GPU/driver only exposes an older OpenGL version. \
    Update the GPU driver, or use Minecraft 1.16.5 or older on this hardware.";

/// Advice shown for a matching crash.
pub const ADVICE_FIRST_THREAD: &'static str = "macOS requires the JVM flag -XstartOnFirstThread for \
    this version (LWJGL 3 / GLFW). It was removed by custom JVM arguments or a mod \
    loader profile — check the instance's Java settings.";

/// Advice shown for a matching crash.
pub const ADVICE_VULKAN: &'static str = "the experimental Vulkan renderer (26.2+) failed to \
    initialize — the GPU/driver lacks Vulkan 1.2 support (on macOS this goes through \
    MoltenVK). Switch the renderer back to OpenGL in Video Settings, or update the \
    GPU driver.";

/// Advice shown for a matching crash.
pub const ADVICE_DISPLAY: &'static str = "no usable display connection (Linux). On Wayland, make \
    sure XWayland is available (DISPLAY is set for this app); versions up to 1.12.2 \
    (LWJGL 2) require X11/XWayland.";

/// Advice shown for a matching crash.
pub const ADVICE_NATIVES: &'static str = "a native library failed to load — usually a missing file \
    or a CPU architecture mismatch (e.g. x86_64 natives with an arm64 Java). Retry to \
    re-download the libraries; on Apple Silicon, versions before 1.19 use replaced \
    arm64 libraries or x86_64 Java via Rosetta.";

/// Advice shown for a matching crash.
pub const ADVICE_LWJGL2_MACOS: &'static str = "the JVM crashed inside LWJGL 2 native code — a known \
    macOS issue with versions up to 1.12.2 (mouse/pointer handling on newer macOS). \
    On Apple Silicon use the arm64 native mode (patched LWJGL 2); otherwise use \
    x86_64 Java via Rosetta.";

/// Advice shown for a matching crash.
pub const ADVICE_MACOS_OLD_GLFW: &'static str = "the GLFW bundled with this Minecraft version \
    (1.13–1.16) is too old for this macOS release ('failed to find service port for \
    display'). The launcher normally substitutes updated LWJGL automatically — \
    try launching again; if it persists, check the instance log for library errors.";

/// Advice shown for a matching crash.
pub const ADVICE_MACOS_GLFW_TOO_NEW: &'static str = "this Minecraft version (1.13-1.18) sets a window \
    icon during startup, which LWJGL 3.3+ (GLFW 3.4) rejects on macOS and the game \
    treats as fatal. Set this instance's Java to 'Follow Minecraft' (the launcher then \
    picks Rosetta + LWJGL 3.2.3, which avoids this) instead of a custom arm64 Java.";

/// A known crash: the system it applies to (all if `None`), the log
/// fragments that must all appear (compared case-insensitively in ASCII),
/// and the advice.
pub struct CrashSignature {
    pub os: Option<&'static str>,
    pub needles: Vec<&'static str>,
    pub advice: &'static str,
}

/// The plain values of a signature.
pub open spec fn signature_view(s: CrashSignature) -> (Option<Seq<char>>, Seq<Seq<char>>, Seq<char>) {
    (
        match s.os {
            Some(o) => Some(o@),
            None => None,
        },
        s.needles@.map_values(|n: &str| n@),
        s.advice@,
    )
}

/// The known crashes, in priority order.
pub open spec fn crash_table() -> Seq<(Option<Seq<char>>, Seq<Seq<char>>, Seq<char>)> {
    seq![
        (Some("windows"@), seq!["Pixel format not accelerated"@], ADVICE_NO_HW_ACCEL@),
        (Some("windows"@), seq!["WGL: The driver does not appear to support OpenGL"@], ADVICE_NO_HW_ACCEL@),
        (None, seq!["GLFW error 65543"@], ADVICE_GL_CORE@),
        (Some("linux"@), seq!["GLX: Failed to create context"@], ADVICE_GL_CORE@),
        (Some("macos"@), seq!["-XstartOnFirstThread"@], ADVICE_FIRST_THREAD@),
        (None, seq!["VK_ERROR_INCOMPATIBLE_DRIVER"@], ADVICE_VULKAN@),
        (None, seq!["VK_ERROR_INITIALIZATION_FAILED"@], ADVICE_VULKAN@),
        (None, seq!["Failed to initialize Vulkan"@], ADVICE_VULKAN@),
        (Some("macos"@), seq!["GLFW error 65544"@, "service port for display"@], ADVICE_MACOS_OLD_GLFW@),
        (Some("macos"@), seq!["GLFW error 65548"@], ADVICE_MACOS_GLFW_TOO_NEW@),
        (Some("linux"@), seq!["GLFW error 65544"@], ADVICE_DISPLAY@),
        (Some("linux"@), seq!["X11: Failed to open display"@], ADVICE_DISPLAY@),
        (Some("linux"@), seq!["Failed to connect to the Wayland display"@], ADVICE_DISPLAY@),
        (Some("macos"@), seq!["A fatal error has been detected"@, "liblwjgl"@], ADVICE_LWJGL2_MACOS@),
        (None, seq!["java.lang.UnsatisfiedLinkError"@], ADVICE_NATIVES@),
        (None, seq!["Failed to locate library"@], ADVICE_NATIVES@),
    ]
}

fn needles1(a: &'static str) -> (v: Vec<&'static str>)
    ensures
        v@.map_values(|n: &str| n@) == seq![a@],
{
    let mut v: Vec<&'static str> = Vec::new();
    v.push(a);
    assert(v@.map_values(|n: &str| n@) =~= seq![a@]);
    v
}

fn needles2(a: &'static str, b: &'static str) -> (v: Vec<&'static str>)
    ensures
        v@.map_values(|n: &str| n@) == seq![a@, b@],
{
    let mut v: Vec<&'static str> = Vec::new();
    v.push(a);
    v.push(b);
    assert(v@.map_values(|n: &str| n@) =~= seq![a@, b@]);
    v
}

fn signature(os: Option<&'static str>, needles: Vec<&'static str>, advice: &'static str) -> (s: CrashSignature)
    ensures
        s.os == os,
        s.needles == needles,
        s.advice == advice,
{
    CrashSignature { os, needles, advice }
}

/// The known crashes, in priority order.
pub fn crash_signatures() -> (t: Vec<CrashSignature>)
    ensures
        t@.map_values(|s: CrashSignature| signature_view(s)) == crash_table(),
{
    let mut t: Vec<CrashSignature> = Vec::new();
    t.push(signature(Some("windows"), needles1("Pixel format not accelerated"), ADVICE_NO_HW_ACCEL));
    t.push(signature(Some("windows"), needles1("WGL: The driver does not appear to support OpenGL"), ADVICE_NO_HW_ACCEL));
    t.push(signature(None, needles1("GLFW error 65543"), ADVICE_GL_CORE));
    t.push(signature(Some("linux"), needles1("GLX: Failed to create context"), ADVICE_GL_CORE));
    t.push(signature(Some("macos"), needles1("-XstartOnFirstThread"), ADVICE_FIRST_THREAD));
    t.push(signature(None, needles1("VK_ERROR_INCOMPATIBLE_DRIVER"), ADVICE_VULKAN));
    t.push(signature(None, needles1("VK_ERROR_INITIALIZATION_FAILED"), ADVICE_VULKAN));
    t.push(signature(None, needles1("Failed to initialize Vulkan"), ADVICE_VULKAN));
    t.push(signature(Some("macos"), needles2("GLFW error 65544", "service port for display"), ADVICE_MACOS_OLD_GLFW));
    t.push(signature(Some("macos"), needles1("GLFW error 65548"), ADVICE_MACOS_GLFW_TOO_NEW));
    t.push(signature(Some("linux"), needles1("GLFW error 65544"), ADVICE_DISPLAY));
    t.push(signature(Some("linux"), needles1("X11: Failed to open display"), ADVICE_DISPLAY));
    t.push(signature(Some("linux"), needles1("Failed to connect to the Wayland display"), ADVICE_DISPLAY));
    t.push(signature(Some("macos"), needles2("A fatal error has been detected", "liblwjgl"), ADVICE_LWJGL2_MACOS));
    t.push(signature(None, needles1("java.lang.UnsatisfiedLinkError"), ADVICE_NATIVES));
    t.push(signature(None, needles1("Failed to locate library"), ADVICE_NATIVES));
    assert(t@.map_values(|s: CrashSignature| signature_view(s)) =~~= crash_table());
    t
}


/// Lines joined with `\n` between them.
pub open spec fn join_lines(lines: Seq<Seq<char>>) -> Seq<char>
    decreases lines.len(),
{
    if lines.len() == 0 {
        Seq::empty()
    } else if lines.len() == 1 {
        lines[0]
    } else {
        join_lines(lines.drop_last()) + seq!['\n'] + lines.last()
    }
}

/// A signature applies on `os` to the (lower-cased) log `joined`.
pub open spec fn sig_applies(
    sig: (Option<Seq<char>>, Seq<Seq<char>>, Seq<char>),
    os: Seq<char>,
    joined: Seq<char>,
) -> bool {
    &&& (sig.0 matches Some(o) ==> o == os)
    &&& forall|k: int| 0 <= k < sig.1.len() ==> contains_seq(joined, ascii_lower_seq(#[trigger] sig.1[k]))
}

/// The advice of the first signature of `table` that applies.
pub open spec fn first_advice(
    table: Seq<(Option<Seq<char>>, Seq<Seq<char>>, Seq<char>)>,
    os: Seq<char>,
    joined: Seq<char>,
) -> Option<Seq<char>>
    decreases table.len(),
{
    if table.len() == 0 {
        None
    } else if sig_applies(table[0], os, joined) {
        Some(table[0].2)
    } else {
        first_advice(table.drop_first(), os, joined)
    }
}

/// The diagnosis of a log on `os`: the advice of the first known crash
/// (in table order) for that system whose fragments all appear in the log,
/// compared case-insensitively in ASCII.
pub open spec fn diagnose_spec(lines: Seq<Seq<char>>, os: Seq<char>) -> Option<Seq<char>> {
    first_advice(
        crash_table(),
        os,
        join_lines(lines.map_values(|l: Seq<char>| ascii_lower_seq(l))),
    )
}

/// The log lines joined with `\n`, lower-cased in ASCII.
fn joined_lower(lines: &[&str]) -> (r: Vec<char>)
    ensures
        r@ == join_lines(lines@.map_values(|l: &str| l@).map_values(|l: Seq<char>| ascii_lower_seq(l))),
{
    let ghost all = lines@.map_values(|l: &str| l@).map_values(|l: Seq<char>| ascii_lower_seq(l));
    let mut out: Vec<char> = Vec::new();
    let mut i: usize = 0;
    while i < lines.len()
        invariant
            i <= lines@.len(),
            all == lines@.map_values(|l: &str| l@).map_values(|l: Seq<char>| ascii_lower_seq(l)),
            out@ == join_lines(all.take(i as int)),
        decreases lines.len() - i,
    {
        let c = chars_of(lines[i]);
        let low = lower_chars(c.as_slice());
        assert(all.take(i + 1).drop_last() =~= all.take(i as int));
        assert(all.take(i + 1).last() == low@);
        if i > 0 {
            out.push('\n');
        } else {
            assert(out@ =~= Seq::<char>::empty());
        }
        crate::text::extend_chars(&mut out, low.as_slice());
        i = i + 1;
        assert(out@ =~= join_lines(all.take(i as int)));
    }
    assert(all.take(lines@.len() as int) =~= all);
    out
}

/// Whether every fragment of `sig` appears in `joined`.
fn all_needles(sig: &CrashSignature, joined: &[char]) -> (b: bool)
    ensures
        b == forall|k: int| 0 <= k < sig.needles@.len() ==> contains_seq(
            joined@,
            ascii_lower_seq(#[trigger] sig.needles@[k]@),
        ),
{
    let mut k: usize = 0;
    while k < sig.needles.len()
        invariant
            k <= sig.needles@.len(),
            forall|j: int| 0 <= j < k ==> contains_seq(joined@, ascii_lower_seq(#[trigger] sig.needles@[j]@)),
        decreases sig.needles.len() - k,
    {
        let n = chars_of(sig.needles[k]);
        let low = lower_chars(n.as_slice());
        if !contains_slice(joined, low.as_slice()) {
            return false;
        }
        k = k + 1;
    }
    true
}

/// The advice for the first known graphics crash that the log shows on
/// `os`, if any.
pub fn diagnose_with_os(lines: &[&str], os: &str) -> (r: Option<&'static str>)
    ensures
        crate::mc_parser::opt_view(r) == diagnose_spec(lines@.map_values(|l: &str| l@), os@),
{
    let joined = joined_lower(lines);
    let table = crash_signatures();
    let ghost tv = table@.map_values(|s: CrashSignature| signature_view(s));
    assert(tv.skip(0) =~= tv);
    let mut i: usize = 0;
    while i < table.len()
        invariant
            i <= table@.len(),
            tv == table@.map_values(|s: CrashSignature| signature_view(s)),
            tv == crash_table(),
            joined@ == join_lines(lines@.map_values(|l: &str| l@).map_values(|l: Seq<char>| ascii_lower_seq(l))),
            diagnose_spec(lines@.map_values(|l: &str| l@), os@) == first_advice(tv.skip(i as int), os@, joined@),
        decreases table.len() - i,
    {
        let sig = &table[i];
        assert(tv.skip(i as int)[0] == signature_view(*sig));
        let os_ok = match sig.os {
            Some(o) => str_eq(o, os),
            None => true,
        };
        let needles_ok = all_needles(sig, joined.as_slice());
        proof {
            let v = signature_view(*sig);
            assert forall|k: int| 0 <= k < v.1.len() implies v.1[k] == sig.needles@[k]@ by {}
        }
        if os_ok && needles_ok {
            return Some(sig.advice);
        }
        proof {
            let v = signature_view(*sig);
            if !needles_ok {
                let k = choose|k: int| 0 <= k < sig.needles@.len() && !contains_seq(
                    joined@,
                    ascii_lower_seq(#[trigger] sig.needles@[k]@),
                );
                assert(v.1[k] == sig.needles@[k]@);
                assert(!contains_seq(joined@, ascii_lower_seq(v.1[k])));
            }
            assert(!sig_applies(v, os@, joined@));
        }
        assert(tv.skip(i as int).drop_first() =~= tv.skip(i + 1));
        i = i + 1;
    }
    None
}

} // verus!
