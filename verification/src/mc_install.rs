//! What installing a game version downloads and where it goes: libraries
//! with their natives, the client jar, assets and Java runtimes; how
//! downloads are checked and retried; and which archive entries are kept.
use vstd::prelude::*;
use crate::launch::opt_string;
use crate::mc_compat::{excluded_by, strings_view, CompatArtifact, MacosArm64Override};
use crate::mc_parser::{
    evaluate_rules, jna_bump_spec, jna_compat_rel_path, jna_compat_rel_spec, jna_needs_bump,
    maven_coord_spec, maven_coord_to_path, native_classifier_key, native_key_spec, rules_allow,
};
use crate::mc_types::{
    has_two_byte_prefix, two_byte_prefix, McArtifactInfo, McAssetObject, McAssetObjects, McJavaFileEntry,
    McJavaManifest, McLibrary, McSpecificVersionDetail, ASSET_SERVER,
};
use crate::paths::{join, path_join, HostOs, Platform};
use crate::text::{assoc_find, assoc_index};
use crate::text::{chars_of, is_prefix, is_suffix, str_starts_with, str_ends_with, str_views, string_of};

verus! {

/// Attempts made for one download.
pub const MAX_RETRIES: u32 = 5;

/// The wait before the first retry, in milliseconds; it doubles each time.
pub const RETRY_BASE_DELAY_MS: u64 = 1000;

/// Name for the SHA-1 digest of `data` (the sha1 crate's `Sha1::digest`).
pub uninterp spec fn sha1_digest_result(data: Seq<u8>) -> Seq<u8>;

/// sha1's `Sha1::digest`: the 20-byte SHA-1 digest of `data`.
#[verifier::external_body]
fn sha1_digest(data: &[u8]) -> (r: Vec<u8>)
    ensures
        r@ == sha1_digest_result(data@),
        r@.len() == 20,
{
    <sha1::Sha1 as sha1::Digest>::digest(data).to_vec()
}

/// The lower-case hexadecimal digits.
pub open spec fn hex_digits() -> Seq<char> {
    "0123456789abcdef"@
}

/// Two lower-case hexadecimal digits per byte, in order.
pub open spec fn hex_spec(bytes: Seq<u8>) -> Seq<char>
    decreases bytes.len(),
{
    if bytes.len() == 0 {
        Seq::empty()
    } else {
        hex_spec(bytes.drop_last()) + seq![
            hex_digits()[(bytes.last() / 16) as int],
            hex_digits()[(bytes.last() % 16) as int],
        ]
    }
}

/// Bytes written as lower-case hexadecimal, two digits each.
pub fn hex_lower(bytes: &[u8]) -> (r: String)
    ensures
        r@ == hex_spec(bytes@),
{
    let digits = chars_of("0123456789abcdef");
    proof {
        reveal_strlit("0123456789abcdef");
    }
    assert(digits@.len() == 16);
    let mut out: Vec<char> = Vec::new();
    let mut i: usize = 0;
    assert(bytes@.take(0) =~= Seq::<u8>::empty());
    while i < bytes.len()
        invariant
            i <= bytes@.len(),
            digits@ == hex_digits(),
            digits@.len() == 16,
            out@ == hex_spec(bytes@.take(i as int)),
        decreases bytes.len() - i,
    {
        let b = bytes[i];
        let ghost t = bytes@.take(i + 1);
        assert(t.drop_last() =~= bytes@.take(i as int));
        assert(t.last() == b);
        out.push(digits[(b / 16) as usize]);
        out.push(digits[(b % 16) as usize]);
        i = i + 1;
    }
    assert(bytes@.take(i as int) =~= bytes@);
    string_of(out.as_slice())
}

/// The SHA-1 digest of `data` in lower-case hexadecimal.
pub fn sha1_hex(data: &[u8]) -> (r: String)
    ensures
        r@ == hex_spec(sha1_digest_result(data@)),
        r@.len() == 40,
{
    let d = sha1_digest(data);
    let r = hex_lower(d.as_slice());
    proof {
        lemma_hex_len(d@);
    }
    r
}

/// Hexadecimal takes two digits per byte.
pub proof fn lemma_hex_len(bytes: Seq<u8>)
    ensures
        hex_spec(bytes).len() == 2 * bytes.len(),
    decreases bytes.len(),
{
    if bytes.len() > 0 {
        lemma_hex_len(bytes.drop_last());
    }
}

/// Whether downloaded data has the expected SHA-1 (as hexadecimal text).
pub fn sha1_matches(data: &[u8], expected_sha1: &str) -> (b: bool)
    ensures
        b == (hex_spec(sha1_digest_result(data@)) == expected_sha1@),
{
    let actual = sha1_hex(data);
    crate::text::str_eq(actual.as_str(), expected_sha1)
}

/// Whether a file must be downloaded: unless it exists with the expected
/// size.
pub fn needs_download(exists: bool, current_size: u64, expected_size: u64) -> (b: bool)
    ensures
        b == !(exists && current_size == expected_size),
{
    !(exists && current_size == expected_size)
}

/// `2` to the power `n`.
pub open spec fn pow2(n: nat) -> nat
    decreases n,
{
    if n == 0 {
        1
    } else {
        2 * pow2((n - 1) as nat)
    }
}

/// The wait before retry `attempt` (1 for the first retry): the base delay
/// doubled for each earlier retry.
pub fn retry_delay_ms(attempt: u32) -> (r: u64)
    requires
        1 <= attempt < MAX_RETRIES,
    ensures
        r == RETRY_BASE_DELAY_MS * pow2((attempt - 1) as nat),
{
    proof {
        reveal_with_fuel(pow2, 5);
    }
    let mut d: u64 = RETRY_BASE_DELAY_MS;
    let mut k: u32 = 1;
    while k < attempt
        invariant
            1 <= k <= attempt < MAX_RETRIES,
            d == RETRY_BASE_DELAY_MS * pow2((k - 1) as nat),
        decreases attempt - k,
    {
        proof {
            reveal_with_fuel(pow2, 5);
        }
        d = d * 2;
        k = k + 1;
    }
    d
}

/// Whether an entry of a natives jar is left out: signatures under
/// `META-INF/`, and entries under any of the library's excluded prefixes.
pub open spec fn skip_native_spec(name: Seq<char>, excludes: Seq<Seq<char>>) -> bool {
    is_prefix("META-INF/"@, name) || exists|i: int| 0 <= i < excludes.len() && is_prefix(#[trigger] excludes[i], name)
}

/// Whether an entry of a natives jar is left out when extracting.
pub fn should_skip_native_entry(name: &str, excludes: &Vec<String>) -> (b: bool)
    ensures
        b == skip_native_spec(name@, str_views(excludes@)),
{
    if str_starts_with(name, "META-INF/") {
        return true;
    }
    let mut i: usize = 0;
    while i < excludes.len()
        invariant
            i <= excludes@.len(),
            !is_prefix("META-INF/"@, name@),
            forall|k: int| 0 <= k < i ==> !is_prefix(#[trigger] str_views(excludes@)[k], name@),
        decreases excludes.len() - i,
    {
        assert(str_views(excludes@)[i as int] == excludes@[i as int]@);
        if str_starts_with(name, excludes[i].as_str()) {
            return true;
        }
        i = i + 1;
    }
    false
}

/// Whether a jar entry is part of a signature (dropped from the unsigned
/// copy of the game jar): a `.SF`, `.RSA`, `.DSA` or `.EC` file under
/// `META-INF/`.
pub open spec fn signature_entry_spec(name: Seq<char>) -> bool {
    is_prefix("META-INF/"@, name) && (is_suffix(".SF"@, name) || is_suffix(".RSA"@, name) || is_suffix(
        ".DSA"@,
        name,
    ) || is_suffix(".EC"@, name))
}

/// Whether a jar entry is part of a signature.
pub fn is_signature_entry(name: &str) -> (b: bool)
    ensures
        b == signature_entry_spec(name@),
{
    str_starts_with(name, "META-INF/") && (str_ends_with(name, ".SF") || str_ends_with(name, ".RSA")
        || str_ends_with(name, ".DSA") || str_ends_with(name, ".EC"))
}

/// A file of a Java runtime to download.
pub struct JavaFileJob {
    pub dest: String,
    pub executable: bool,
    pub url: String,
    pub size: u64,
    pub sha1: String,
}

/// What installing a Java runtime does: the folders to make, the files to
/// download, and the links to make (path and target), each in manifest
/// order.
pub struct JavaInstallPlan {
    pub dirs: Vec<String>,
    pub files: Vec<JavaFileJob>,
    pub links: Vec<(String, String)>,
}

/// The folders of a runtime manifest.
pub open spec fn java_dirs_spec(files: Seq<(String, McJavaFileEntry)>, root: Seq<char>) -> Seq<Seq<char>>
    decreases files.len(),
{
    if files.len() == 0 {
        Seq::empty()
    } else {
        let rest = java_dirs_spec(files.drop_last(), root);
        match files.last().1 {
            McJavaFileEntry::Directory => rest.push(path_join(root, files.last().0@)),
            _ => rest,
        }
    }
}

/// The downloads of a runtime manifest: path, executable flag, URL, size
/// and SHA-1 of each file.
pub open spec fn java_files_spec(files: Seq<(String, McJavaFileEntry)>, root: Seq<char>) -> Seq<(Seq<char>, bool, Seq<char>, u64, Seq<char>)>
    decreases files.len(),
{
    if files.len() == 0 {
        Seq::empty()
    } else {
        let rest = java_files_spec(files.drop_last(), root);
        match files.last().1 {
            McJavaFileEntry::File { executable, downloads } => rest.push(
                (path_join(root, files.last().0@), executable, downloads.raw.url@, downloads.raw.size, downloads.raw.sha1@),
            ),
            _ => rest,
        }
    }
}

/// The links of a runtime manifest: path and target.
pub open spec fn java_links_spec(files: Seq<(String, McJavaFileEntry)>, root: Seq<char>) -> Seq<(Seq<char>, Seq<char>)>
    decreases files.len(),
{
    if files.len() == 0 {
        Seq::empty()
    } else {
        let rest = java_links_spec(files.drop_last(), root);
        match files.last().1 {
            McJavaFileEntry::Link { target } => rest.push((path_join(root, files.last().0@), target@)),
            _ => rest,
        }
    }
}

/// The plain values of runtime file downloads.
pub open spec fn java_jobs_view(v: Seq<JavaFileJob>) -> Seq<(Seq<char>, bool, Seq<char>, u64, Seq<char>)> {
    v.map_values(|j: JavaFileJob| (j.dest@, j.executable, j.url@, j.size, j.sha1@))
}

/// The plain values of pairs of strings.
pub open spec fn string_pairs_view(v: Seq<(String, String)>) -> Seq<(Seq<char>, Seq<char>)> {
    v.map_values(|p: (String, String)| (p.0@, p.1@))
}

/// What installing a runtime into `java_dir` does, from its manifest.
pub fn java_install_plan(manifest: &McJavaManifest, java_dir: &str) -> (r: JavaInstallPlan)
    ensures
        str_views(r.dirs@) == java_dirs_spec(manifest.files@, java_dir@),
        java_jobs_view(r.files@) == java_files_spec(manifest.files@, java_dir@),
        string_pairs_view(r.links@) == java_links_spec(manifest.files@, java_dir@),
{
    let files = &manifest.files;
    let mut dirs: Vec<String> = Vec::new();
    let mut jobs: Vec<JavaFileJob> = Vec::new();
    let mut links: Vec<(String, String)> = Vec::new();
    let mut i: usize = 0;
    assert(files@.take(0) =~= Seq::<(String, McJavaFileEntry)>::empty());
    assert(str_views(dirs@) =~= Seq::<Seq<char>>::empty());
    assert(java_jobs_view(jobs@) =~= Seq::<(Seq<char>, bool, Seq<char>, u64, Seq<char>)>::empty());
    assert(string_pairs_view(links@) =~= Seq::<(Seq<char>, Seq<char>)>::empty());
    while i < files.len()
        invariant
            i <= files@.len(),
            str_views(dirs@) == java_dirs_spec(files@.take(i as int), java_dir@),
            java_jobs_view(jobs@) == java_files_spec(files@.take(i as int), java_dir@),
            string_pairs_view(links@) == java_links_spec(files@.take(i as int), java_dir@),
        decreases files.len() - i,
    {
        let ghost t = files@.take(i + 1);
        assert(t.drop_last() =~= files@.take(i as int));
        assert(t.last() == files@[i as int]);
        let path = crate::paths::join(java_dir, files[i].0.as_str());
        match &files[i].1 {
            McJavaFileEntry::Directory => {
                let ghost before = str_views(dirs@);
                dirs.push(path);
                assert(str_views(dirs@) =~= before.push(dirs@.last()@));
            },
            McJavaFileEntry::File { executable, downloads } => {
                let ghost before = java_jobs_view(jobs@);
                jobs.push(
                    JavaFileJob {
                        dest: path,
                        executable: *executable,
                        url: downloads.raw.url.clone(),
                        size: downloads.raw.size,
                        sha1: downloads.raw.sha1.clone(),
                    },
                );
                assert(java_jobs_view(jobs@) =~= before.push(
                    (jobs@.last().dest@, jobs@.last().executable, jobs@.last().url@, jobs@.last().size, jobs@.last().sha1@),
                ));
            },
            McJavaFileEntry::Link { target } => {
                let ghost before = string_pairs_view(links@);
                links.push((path, target.clone()));
                assert(string_pairs_view(links@) =~= before.push((links@.last().0@, links@.last().1@)));
            },
        }
        i = i + 1;
    }
    assert(files@.take(i as int) =~= files@);
    JavaInstallPlan { dirs, files: jobs, links }
}

/// A file to download: where it goes, from where, and its size and SHA-1.
pub struct DownloadJob {
    pub dest: String,
    pub url: String,
    pub size: u64,
    pub sha1: String,
}

/// The plain values of a download.
pub open spec fn job_view(j: DownloadJob) -> (Seq<char>, Seq<char>, u64, Seq<char>) {
    (j.dest@, j.url@, j.size, j.sha1@)
}

/// The plain values of downloads.
pub open spec fn jobs_view(v: Seq<DownloadJob>) -> Seq<(Seq<char>, Seq<char>, u64, Seq<char>)> {
    v.map_values(|j: DownloadJob| job_view(j))
}

/// Whether a library is used on the host: its rules allow it and the
/// compatibility layer does not replace it.
pub open spec fn lib_in_use(lib: McLibrary, compat: Option<MacosArm64Override>, p: Platform) -> bool {
    &&& (lib.rules matches Some(rs) ==> rules_allow(rs@, p))
    &&& !(compat matches Some(ov) && excluded_by(strings_view(ov.exclude_prefixes@), lib.name@))
}

/// Where an artifact goes: its own path, else the path of the maven
/// coordinates, under the libraries directory.
pub open spec fn artifact_dest(path: Option<String>, coord: Seq<char>, libdir: Seq<char>) -> Option<Seq<char>> {
    match path {
        Some(p) => Some(path_join(libdir, p@)),
        None => match maven_coord_spec(coord) {
            Some(r) => Some(path_join(libdir, r)),
            None => None,
        },
    }
}

/// The main artifact of a library to download.
pub open spec fn regular_job(lib: McLibrary, libdir: Seq<char>) -> Option<(Seq<char>, Seq<char>, u64, Seq<char>)> {
    match lib.downloads {
        Some(d) => match d.artifact {
            Some(a) => match artifact_dest(a.path, lib.name@, libdir) {
                Some(dest) => Some((dest, a.url@, a.size, a.sha1@)),
                None => None,
            },
            None => None,
        },
        None => None,
    }
}

/// The natives artifact of a library for the host, to download.
pub open spec fn classifier_job(lib: McLibrary, libdir: Seq<char>, p: Platform) -> Option<(Seq<char>, Seq<char>, u64, Seq<char>)> {
    match native_key_spec(lib, p) {
        Some(key) => match lib.downloads {
            Some(d) => match d.classifiers {
                Some(c) => match assoc_find(c@, key) {
                    Some(a) => match artifact_dest(a.path, lib.name@ + ":"@ + key, libdir) {
                        Some(dest) => Some((dest, a.url@, a.size, a.sha1@)),
                        None => None,
                    },
                    None => None,
                },
                None => None,
            },
            None => None,
        },
        None => None,
    }
}

/// An optional value as a sequence of at most one.
pub open spec fn opt_seq<T>(o: Option<T>) -> Seq<T> {
    match o {
        Some(x) => seq![x],
        None => Seq::empty(),
    }
}

/// The downloads of the libraries in use: for each, its main artifact, then
/// its natives for the host.
pub open spec fn library_jobs_spec(
    libs: Seq<McLibrary>,
    libdir: Seq<char>,
    compat: Option<MacosArm64Override>,
    p: Platform,
) -> Seq<(Seq<char>, Seq<char>, u64, Seq<char>)>
    decreases libs.len(),
{
    if libs.len() == 0 {
        Seq::empty()
    } else {
        let rest = library_jobs_spec(libs.drop_last(), libdir, compat, p);
        if lib_in_use(libs.last(), compat, p) {
            rest + opt_seq(regular_job(libs.last(), libdir)) + opt_seq(classifier_job(libs.last(), libdir, p))
        } else {
            rest
        }
    }
}

/// Whether some library is a jna that macOS needs raised to `artifact`.
pub open spec fn needs_jna(libs: Seq<McLibrary>, artifact: Seq<char>) -> bool {
    exists|i: int| 0 <= i < libs.len() && jna_bump_spec(#[trigger] libs[i].name@) == Some(artifact)
}

/// The compatible jna jar.
pub open spec fn jna_fixup(artifact: Seq<char>, libdir: Seq<char>) -> (Seq<char>, Seq<char>, u64, Seq<char>) {
    if artifact == "jna"@ {
        (
            path_join(libdir, jna_compat_rel_spec("jna"@)),
            "https://libraries.minecraft.net/net/java/dev/jna/jna/5.13.0/jna-5.13.0.jar"@,
            1879325,
            "1200e7ebeedbe0d10062093f32925a912020e747"@,
        )
    } else {
        (
            path_join(libdir, jna_compat_rel_spec("jna-platform"@)),
            "https://libraries.minecraft.net/net/java/dev/jna/jna-platform/5.13.0/jna-platform-5.13.0.jar"@,
            1363209,
            "88e9a306715e9379f3122415ef4ae759a352640d"@,
        )
    }
}

/// On macOS, the compatible jna jars that outdated jna libraries are
/// pointed at (`jna` before `jna-platform`); none elsewhere.
pub open spec fn jna_jobs_spec(libs: Seq<McLibrary>, libdir: Seq<char>, p: Platform) -> Seq<(Seq<char>, Seq<char>, u64, Seq<char>)> {
    if p.os == HostOs::MacOs {
        (if needs_jna(libs, "jna"@) {
            seq![jna_fixup("jna"@, libdir)]
        } else {
            Seq::empty()
        }) + (if needs_jna(libs, "jna-platform"@) {
            seq![jna_fixup("jna-platform"@, libdir)]
        } else {
            Seq::empty()
        })
    } else {
        Seq::empty()
    }
}

/// The files of the compatibility layer.
pub open spec fn compat_jobs_spec(compat: Option<MacosArm64Override>, libdir: Seq<char>) -> Seq<(Seq<char>, Seq<char>, u64, Seq<char>)> {
    match compat {
        Some(ov) => ov.artifacts@.map_values(
            |a: CompatArtifact| (path_join(libdir, a.rel_path@), a.url@, a.size, a.sha1@),
        ),
        None => Seq::empty(),
    }
}

/// Everything installing the libraries of a version downloads (with size
/// and SHA-1 checked): the libraries in use with their natives, the jna
/// jars macOS needs, then the compatibility layer's files.
pub open spec fn install_jobs_spec(
    v: McSpecificVersionDetail,
    libdir: Seq<char>,
    compat: Option<MacosArm64Override>,
    p: Platform,
) -> Seq<(Seq<char>, Seq<char>, u64, Seq<char>)> {
    library_jobs_spec(v.libraries@, libdir, compat, p) + jna_jobs_spec(v.libraries@, libdir, p) + compat_jobs_spec(
        compat,
        libdir,
    )
}

/// Whether a library is used on the host.
pub fn library_in_use(lib: &McLibrary, compat: &Option<MacosArm64Override>, platform: &Platform) -> (b: bool)
    ensures
        b == lib_in_use(*lib, *compat, *platform),
{
    if let Some(rules) = &lib.rules {
        if !evaluate_rules(rules, platform) {
            return false;
        }
    }
    match compat {
        Some(ov) => !ov.excludes(lib.name.as_str()),
        None => true,
    }
}

/// Where an artifact goes under the libraries directory.
fn artifact_dest_exec(path: &Option<String>, coord: &str, libdir: &str) -> (r: Option<String>)
    ensures
        opt_string(r) == artifact_dest(*path, coord@, libdir@),
{
    match path {
        Some(p) => Some(join(libdir, p.as_str())),
        None => match maven_coord_to_path(coord) {
            Some(rel) => Some(join(libdir, rel.as_str())),
            None => None,
        },
    }
}

/// The main artifact of a library to download.
fn regular_job_exec(lib: &McLibrary, libdir: &str) -> (r: Option<DownloadJob>)
    ensures
        match r {
            Some(j) => regular_job(*lib, libdir@) == Some(job_view(j)),
            None => regular_job(*lib, libdir@) is None,
        },
{
    match &lib.downloads {
        Some(d) => match &d.artifact {
            Some(a) => match artifact_dest_exec(&a.path, lib.name.as_str(), libdir) {
                Some(dest) => Some(DownloadJob { dest, url: a.url.clone(), size: a.size, sha1: a.sha1.clone() }),
                None => None,
            },
            None => None,
        },
        None => None,
    }
}

/// `name:key`.
fn coord_with_classifier(name: &str, key: &str) -> (r: String)
    ensures
        r@ == name@ + ":"@ + key@,
{
    let mut v = chars_of(name);
    crate::text::push_str_chars(&mut v, ":");
    crate::text::push_str_chars(&mut v, key);
    string_of(v.as_slice())
}

/// The natives artifact of a library for the host, to download.
fn classifier_job_exec(lib: &McLibrary, libdir: &str, platform: &Platform) -> (r: Option<DownloadJob>)
    ensures
        match r {
            Some(j) => classifier_job(*lib, libdir@, *platform) == Some(job_view(j)),
            None => classifier_job(*lib, libdir@, *platform) is None,
        },
{
    let key = match native_classifier_key(lib, platform) {
        Some(k) => k,
        None => return None,
    };
    match &lib.downloads {
        Some(d) => match &d.classifiers {
            Some(c) => {
                let kc = chars_of(key.as_str());
                match assoc_index(c, kc.as_slice()) {
                    Some(i) => {
                        let a = &c[i].1;
                        let coord = coord_with_classifier(lib.name.as_str(), key.as_str());
                        match artifact_dest_exec(&a.path, coord.as_str(), libdir) {
                            Some(dest) => Some(
                                DownloadJob { dest, url: a.url.clone(), size: a.size, sha1: a.sha1.clone() },
                            ),
                            None => None,
                        }
                    },
                    None => None,
                }
            },
            None => None,
        },
        None => None,
    }
}

/// Appends an optional download.
fn push_job(out: &mut Vec<DownloadJob>, j: Option<DownloadJob>)
    ensures
        jobs_view(final(out)@) == jobs_view(old(out)@) + opt_seq(
            match j {
                Some(x) => Some(job_view(x)),
                None => None,
            },
        ),
{
    match j {
        Some(x) => {
            let ghost before = jobs_view(out@);
            let ghost xv = job_view(x);
            out.push(x);
            assert(jobs_view(out@) =~= before + seq![xv]);
        },
        None => {
            assert(jobs_view(out@) =~= jobs_view(old(out)@) + Seq::empty());
        },
    }
}

/// Whether some library is a jna that macOS needs raised to `artifact`.
fn needs_jna_exec(libs: &Vec<McLibrary>, artifact: &str) -> (b: bool)
    ensures
        b == needs_jna(libs@, artifact@),
{
    let mut i: usize = 0;
    while i < libs.len()
        invariant
            i <= libs@.len(),
            forall|k: int| 0 <= k < i ==> jna_bump_spec(#[trigger] libs@[k].name@) != Some(artifact@),
        decreases libs.len() - i,
    {
        match jna_needs_bump(libs[i].name.as_str()) {
            Some(a) => {
                if crate::text::str_eq(a, artifact) {
                    return true;
                }
            },
            None => {},
        }
        i = i + 1;
    }
    false
}

/// The compatible jna jar to download.
fn jna_fixup_job(artifact: &str, libdir: &str) -> (r: DownloadJob)
    requires
        artifact@ == "jna"@ || artifact@ == "jna-platform"@,
    ensures
        job_view(r) == jna_fixup(artifact@, libdir@),
{
    let rel = jna_compat_rel_path(artifact);
    let dest = join(libdir, rel.as_str());
    if crate::text::str_eq(artifact, "jna") {
        DownloadJob {
            dest,
            url: String::from_str("https://libraries.minecraft.net/net/java/dev/jna/jna/5.13.0/jna-5.13.0.jar"),
            size: 1879325,
            sha1: String::from_str("1200e7ebeedbe0d10062093f32925a912020e747"),
        }
    } else {
        DownloadJob {
            dest,
            url: String::from_str(
                "https://libraries.minecraft.net/net/java/dev/jna/jna-platform/5.13.0/jna-platform-5.13.0.jar",
            ),
            size: 1363209,
            sha1: String::from_str("88e9a306715e9379f3122415ef4ae759a352640d"),
        }
    }
}

/// Everything installing the libraries of a version downloads.
pub fn library_install_jobs(
    version: &McSpecificVersionDetail,
    libraries_dir: &str,
    compat: &Option<MacosArm64Override>,
    platform: &Platform,
) -> (r: Vec<DownloadJob>)
    ensures
        jobs_view(r@) == install_jobs_spec(*version, libraries_dir@, *compat, *platform),
{
    let libs = &version.libraries;
    let mut out: Vec<DownloadJob> = Vec::new();
    let mut i: usize = 0;
    assert(libs@.take(0) =~= Seq::<McLibrary>::empty());
    assert(jobs_view(out@) =~= Seq::<(Seq<char>, Seq<char>, u64, Seq<char>)>::empty());
    while i < libs.len()
        invariant
            i <= libs@.len(),
            jobs_view(out@) == library_jobs_spec(libs@.take(i as int), libraries_dir@, *compat, *platform),
        decreases libs.len() - i,
    {
        let ghost t = libs@.take(i + 1);
        assert(t.drop_last() =~= libs@.take(i as int));
        assert(t.last() == libs@[i as int]);
        let lib = &libs[i];
        if library_in_use(lib, compat, platform) {
            push_job(&mut out, regular_job_exec(lib, libraries_dir));
            push_job(&mut out, classifier_job_exec(lib, libraries_dir, platform));
        }
        i = i + 1;
    }
    assert(libs@.take(i as int) =~= libs@);
    let ghost part1 = jobs_view(out@);
    if platform.os == HostOs::MacOs {
        if needs_jna_exec(libs, "jna") {
            push_job(&mut out, Some(jna_fixup_job("jna", libraries_dir)));
        } else {
            push_job(&mut out, None);
        }
        if needs_jna_exec(libs, "jna-platform") {
            push_job(&mut out, Some(jna_fixup_job("jna-platform", libraries_dir)));
        } else {
            push_job(&mut out, None);
        }
        assert(jobs_view(out@) =~= part1 + jna_jobs_spec(libs@, libraries_dir@, *platform));
    } else {
        assert(jobs_view(out@) =~= part1 + jna_jobs_spec(libs@, libraries_dir@, *platform));
    }
    let ghost part2 = jobs_view(out@);
    match compat {
        Some(ov) => {
            let arts = &ov.artifacts;
            let ghost want = arts@.map_values(
                |a: CompatArtifact| (path_join(libraries_dir@, a.rel_path@), a.url@, a.size, a.sha1@),
            );
            let mut k: usize = 0;
            assert(jobs_view(out@) =~= part2 + want.take(0));
            while k < arts.len()
                invariant
                    k <= arts@.len(),
                    want == arts@.map_values(
                        |a: CompatArtifact| (path_join(libraries_dir@, a.rel_path@), a.url@, a.size, a.sha1@),
                    ),
                    jobs_view(out@) == part2 + want.take(k as int),
                decreases arts.len() - k,
            {
                let a = &arts[k];
                let j = DownloadJob {
                    dest: join(libraries_dir, a.rel_path.as_str()),
                    url: a.url.clone(),
                    size: a.size,
                    sha1: a.sha1.clone(),
                };
                let ghost before = jobs_view(out@);
                let ghost jv = job_view(j);
                out.push(j);
                assert(jobs_view(out@) =~= before.push(jv));
                assert(want.take(k + 1) =~= want.take(k as int).push(want[k as int]));
                k = k + 1;
            }
            assert(want.take(k as int) =~= want);
        },
        None => {
            assert(jobs_view(out@) =~= part2 + Seq::<(Seq<char>, Seq<char>, u64, Seq<char>)>::empty());
        },
    }
    out
}

/// Maven repositories tried, in order, for libraries that name no download.
pub open spec fn fallback_repos() -> Seq<Seq<char>> {
    seq![
        "https://maven.minecraftforge.net/"@,
        "https://libraries.minecraft.net/"@,
        "https://repo1.maven.org/maven2/"@,
    ]
}

/// A library without a download to fetch from a maven repository: where it
/// goes, its path in a repository, and the repository the library names.
pub struct FallbackJob {
    pub dest: String,
    pub rel: String,
    pub repo: Option<String>,
}

/// The plain values of a library to fetch from a repository.
pub open spec fn fallback_view(j: FallbackJob) -> (Seq<char>, Seq<char>, Option<Seq<char>>) {
    (j.dest@, j.rel@, opt_string(j.repo))
}

/// The libraries in use that name no download and are not natives-only,
/// with the path of their maven coordinates (those without such a path are
/// left out).
pub open spec fn fallback_jobs_spec(
    libs: Seq<McLibrary>,
    libdir: Seq<char>,
    compat: Option<MacosArm64Override>,
    p: Platform,
) -> Seq<(Seq<char>, Seq<char>, Option<Seq<char>>)>
    decreases libs.len(),
{
    if libs.len() == 0 {
        Seq::empty()
    } else {
        let rest = fallback_jobs_spec(libs.drop_last(), libdir, compat, p);
        let lib = libs.last();
        let no_artifact = match lib.downloads {
            Some(d) => d.artifact is None,
            None => true,
        };
        if lib_in_use(lib, compat, p) && no_artifact && lib.natives is None {
            match maven_coord_spec(lib.name@) {
                Some(rel) => rest.push((path_join(libdir, rel), rel, opt_string(lib.url))),
                None => rest,
            }
        } else {
            rest
        }
    }
}

/// The libraries to fetch from maven repositories (before leaving out those
/// already on disk).
pub fn fallback_library_jobs(
    version: &McSpecificVersionDetail,
    libraries_dir: &str,
    compat: &Option<MacosArm64Override>,
    platform: &Platform,
) -> (r: Vec<FallbackJob>)
    ensures
        r@.map_values(|j: FallbackJob| fallback_view(j)) == fallback_jobs_spec(
            version.libraries@,
            libraries_dir@,
            *compat,
            *platform,
        ),
{
    let libs = &version.libraries;
    let mut out: Vec<FallbackJob> = Vec::new();
    let mut i: usize = 0;
    assert(libs@.take(0) =~= Seq::<McLibrary>::empty());
    assert(out@.map_values(|j: FallbackJob| fallback_view(j)) =~= Seq::<(Seq<char>, Seq<char>, Option<Seq<char>>)>::empty());
    while i < libs.len()
        invariant
            i <= libs@.len(),
            out@.map_values(|j: FallbackJob| fallback_view(j)) == fallback_jobs_spec(
                libs@.take(i as int),
                libraries_dir@,
                *compat,
                *platform,
            ),
        decreases libs.len() - i,
    {
        let ghost t = libs@.take(i + 1);
        assert(t.drop_last() =~= libs@.take(i as int));
        assert(t.last() == libs@[i as int]);
        let lib = &libs[i];
        let no_artifact = match &lib.downloads {
            Some(d) => d.artifact.is_none(),
            None => true,
        };
        if library_in_use(lib, compat, platform) && no_artifact && lib.natives.is_none() {
            match maven_coord_to_path(lib.name.as_str()) {
                Some(rel) => {
                    let ghost before = out@.map_values(|j: FallbackJob| fallback_view(j));
                    let j = FallbackJob { dest: join(libraries_dir, rel.as_str()), rel, repo: lib.url.clone() };
                    let ghost jv = fallback_view(j);
                    out.push(j);
                    assert(out@.map_values(|j: FallbackJob| fallback_view(j)) =~= before.push(jv));
                },
                None => {},
            }
        }
        i = i + 1;
    }
    assert(libs@.take(i as int) =~= libs@);
    out
}

/// A repository URL ending with `/`.
pub open spec fn with_slash(repo: Seq<char>) -> Seq<char> {
    if is_suffix("/"@, repo) {
        repo
    } else {
        repo + "/"@
    }
}

/// The URLs tried for a library without a download: the repository it
/// names (when not empty), then the known repositories, each with the
/// library's path.
pub open spec fn fallback_urls_spec(repo: Option<Seq<char>>, rel: Seq<char>) -> Seq<Seq<char>> {
    let named = match repo {
        Some(r) => if r.len() > 0 {
            seq![r]
        } else {
            Seq::empty()
        },
        None => Seq::empty(),
    };
    (named + fallback_repos()).map_values(|r: Seq<char>| with_slash(r) + rel)
}

/// `repo` with a `/` at its end, then `rel`.
fn repo_url(repo: &str, rel: &str) -> (r: String)
    ensures
        r@ == with_slash(repo@) + rel@,
{
    let mut v = chars_of(repo);
    if !str_ends_with(repo, "/") {
        crate::text::push_str_chars(&mut v, "/");
    }
    crate::text::push_str_chars(&mut v, rel);
    string_of(v.as_slice())
}

/// The URLs tried, in order, for a library without a download.
pub fn fallback_urls(repo: &Option<String>, rel: &str) -> (r: Vec<String>)
    ensures
        str_views(r@) == fallback_urls_spec(opt_string(*repo), rel@),
{
    let mut repos: Vec<&str> = Vec::new();
    match repo {
        Some(u) => {
            if u.unicode_len() > 0 {
                repos.push(u.as_str());
            }
        },
        None => {},
    }
    repos.push("https://maven.minecraftforge.net/");
    repos.push("https://libraries.minecraft.net/");
    repos.push("https://repo1.maven.org/maven2/");
    let ghost named = match opt_string(*repo) {
        Some(r) => if r.len() > 0 {
            seq![r]
        } else {
            Seq::empty()
        },
        None => Seq::empty(),
    };
    let ghost all = named + fallback_repos();
    assert(repos@.map_values(|s: &str| s@) =~= all);
    let mut out: Vec<String> = Vec::new();
    let mut i: usize = 0;
    while i < repos.len()
        invariant
            i <= repos@.len(),
            repos@.map_values(|s: &str| s@) == all,
            str_views(out@) == all.take(i as int).map_values(|r: Seq<char>| with_slash(r) + rel@),
        decreases repos.len() - i,
    {
        let u = repo_url(repos[i], rel);
        let ghost before = str_views(out@);
        let ghost uv = u@;
        out.push(u);
        assert(all[i as int] == repos@[i as int]@);
        assert(str_views(out@) =~= before.push(uv));
        assert(str_views(out@) =~= all.take(i + 1).map_values(|r: Seq<char>| with_slash(r) + rel@));
        i = i + 1;
    }
    assert(all.take(i as int) =~= all);
    out
}

/// Old-format natives jars of the libraries in use (those with no
/// downloads but a natives table): where each goes and its path in a
/// repository.
pub open spec fn legacy_native_jobs_spec(
    libs: Seq<McLibrary>,
    libdir: Seq<char>,
    compat: Option<MacosArm64Override>,
    p: Platform,
) -> Seq<(Seq<char>, Seq<char>)>
    decreases libs.len(),
{
    if libs.len() == 0 {
        Seq::empty()
    } else {
        let rest = legacy_native_jobs_spec(libs.drop_last(), libdir, compat, p);
        let lib = libs.last();
        if lib_in_use(lib, compat, p) && lib.downloads is None && lib.natives is Some {
            match native_key_spec(lib, p) {
                Some(key) => match maven_coord_spec(lib.name@ + ":"@ + key) {
                    Some(rel) => rest.push((path_join(libdir, rel), rel)),
                    None => rest,
                },
                None => rest,
            }
        } else {
            rest
        }
    }
}

/// Old-format natives jars to fetch from the known repositories (before
/// leaving out those already on disk): destination and path.
pub fn legacy_native_jobs(
    version: &McSpecificVersionDetail,
    libraries_dir: &str,
    compat: &Option<MacosArm64Override>,
    platform: &Platform,
) -> (r: Vec<(String, String)>)
    ensures
        string_pairs_view(r@) == legacy_native_jobs_spec(version.libraries@, libraries_dir@, *compat, *platform),
{
    let libs = &version.libraries;
    let mut out: Vec<(String, String)> = Vec::new();
    let mut i: usize = 0;
    assert(libs@.take(0) =~= Seq::<McLibrary>::empty());
    assert(string_pairs_view(out@) =~= Seq::<(Seq<char>, Seq<char>)>::empty());
    while i < libs.len()
        invariant
            i <= libs@.len(),
            string_pairs_view(out@) == legacy_native_jobs_spec(
                libs@.take(i as int),
                libraries_dir@,
                *compat,
                *platform,
            ),
        decreases libs.len() - i,
    {
        let ghost t = libs@.take(i + 1);
        assert(t.drop_last() =~= libs@.take(i as int));
        assert(t.last() == libs@[i as int]);
        let lib = &libs[i];
        if library_in_use(lib, compat, platform) && lib.downloads.is_none() && lib.natives.is_some() {
            match native_classifier_key(lib, platform) {
                Some(key) => {
                    let coord = coord_with_classifier(lib.name.as_str(), key.as_str());
                    match maven_coord_to_path(coord.as_str()) {
                        Some(rel) => {
                            let ghost before = string_pairs_view(out@);
                            let dest = join(libraries_dir, rel.as_str());
                            let ghost pv = (dest@, rel@);
                            out.push((dest, rel));
                            assert(string_pairs_view(out@) =~= before.push(pv));
                        },
                        None => {},
                    }
                },
                None => {},
            }
        }
        i = i + 1;
    }
    assert(libs@.take(i as int) =~= libs@);
    out
}

/// A natives jar to extract and the entry prefixes it leaves out.
pub struct ExtractJob {
    pub jar: String,
    pub excludes: Vec<String>,
}

/// The plain values of a natives jar to extract.
pub open spec fn extract_view(j: ExtractJob) -> (Seq<char>, Seq<Seq<char>>) {
    (j.jar@, str_views(j.excludes@))
}

/// Where the natives jar of a library lies, if it has one for the host.
pub open spec fn native_jar_spec(lib: McLibrary, libdir: Seq<char>, key: Seq<char>) -> Option<Seq<char>> {
    let own = match lib.downloads {
        Some(d) => match d.classifiers {
            Some(c) => match assoc_find(c@, key) {
                Some(a) => match a.path {
                    Some(path) => Some(path_join(libdir, path@)),
                    None => None,
                },
                None => None,
            },
            None => None,
        },
        None => None,
    };
    match own {
        Some(j) => Some(j),
        None => match maven_coord_spec(lib.name@ + ":"@ + key) {
            Some(rel) => Some(path_join(libdir, rel)),
            None => None,
        },
    }
}

/// The natives jars of the libraries in use, with their exclusions.
pub open spec fn extract_jobs_spec(
    libs: Seq<McLibrary>,
    libdir: Seq<char>,
    compat: Option<MacosArm64Override>,
    p: Platform,
) -> Seq<(Seq<char>, Seq<Seq<char>>)>
    decreases libs.len(),
{
    if libs.len() == 0 {
        Seq::empty()
    } else {
        let rest = extract_jobs_spec(libs.drop_last(), libdir, compat, p);
        let lib = libs.last();
        if lib_in_use(lib, compat, p) {
            match native_key_spec(lib, p) {
                Some(key) => match native_jar_spec(lib, libdir, key) {
                    Some(jar) => rest.push(
                        (
                            jar,
                            match lib.extract {
                                Some(e) => str_views(e.exclude@),
                                None => Seq::empty(),
                            },
                        ),
                    ),
                    None => rest,
                },
                None => rest,
            }
        } else {
            rest
        }
    }
}

/// The natives jars of the compatibility layer, with no exclusions.
pub open spec fn compat_extract_spec(compat: Option<MacosArm64Override>, libdir: Seq<char>) -> Seq<(Seq<char>, Seq<Seq<char>>)> {
    match compat {
        Some(ov) => ov.artifacts@.filter(|a: CompatArtifact| a.extract).map_values(
            |a: CompatArtifact| (path_join(libdir, a.rel_path@), Seq::<Seq<char>>::empty()),
        ),
        None => Seq::empty(),
    }
}

/// Copies strings.
fn clone_strings(v: &Vec<String>) -> (r: Vec<String>)
    ensures
        str_views(r@) == str_views(v@),
{
    let mut out: Vec<String> = Vec::new();
    let mut i: usize = 0;
    while i < v.len()
        invariant
            i <= v@.len(),
            str_views(out@) == str_views(v@).take(i as int),
        decreases v.len() - i,
    {
        let ghost before = str_views(out@);
        out.push(v[i].clone());
        assert(str_views(out@) =~= before.push(v@[i as int]@));
        assert(str_views(out@) =~= str_views(v@).take(i + 1));
        i = i + 1;
    }
    assert(str_views(v@).take(i as int) =~= str_views(v@));
    out
}

/// The natives jars to extract for a version: those of the libraries in
/// use, then the compatibility layer's.
pub fn native_extract_jobs(
    version: &McSpecificVersionDetail,
    libraries_dir: &str,
    compat: &Option<MacosArm64Override>,
    platform: &Platform,
) -> (r: Vec<ExtractJob>)
    ensures
        r@.map_values(|j: ExtractJob| extract_view(j)) == extract_jobs_spec(
            version.libraries@,
            libraries_dir@,
            *compat,
            *platform,
        ) + compat_extract_spec(*compat, libraries_dir@),
{
    let libs = &version.libraries;
    let mut out: Vec<ExtractJob> = Vec::new();
    let mut i: usize = 0;
    assert(libs@.take(0) =~= Seq::<McLibrary>::empty());
    assert(out@.map_values(|j: ExtractJob| extract_view(j)) =~= Seq::<(Seq<char>, Seq<Seq<char>>)>::empty());
    while i < libs.len()
        invariant
            i <= libs@.len(),
            out@.map_values(|j: ExtractJob| extract_view(j)) == extract_jobs_spec(
                libs@.take(i as int),
                libraries_dir@,
                *compat,
                *platform,
            ),
        decreases libs.len() - i,
    {
        let ghost t = libs@.take(i + 1);
        assert(t.drop_last() =~= libs@.take(i as int));
        assert(t.last() == libs@[i as int]);
        let lib = &libs[i];
        if library_in_use(lib, compat, platform) {
            match native_classifier_key(lib, platform) {
                Some(key) => {
                    let kc = chars_of(key.as_str());
                    let own: Option<String> = match &lib.downloads {
                        Some(d) => match &d.classifiers {
                            Some(c) => match assoc_index(c, kc.as_slice()) {
                                Some(k) => match &c[k].1.path {
                                    Some(path) => Some(join(libraries_dir, path.as_str())),
                                    None => None,
                                },
                                None => None,
                            },
                            None => None,
                        },
                        None => None,
                    };
                    let jar: Option<String> = match own {
                        Some(j) => Some(j),
                        None => {
                            let coord = coord_with_classifier(lib.name.as_str(), key.as_str());
                            match maven_coord_to_path(coord.as_str()) {
                                Some(rel) => Some(join(libraries_dir, rel.as_str())),
                                None => None,
                            }
                        },
                    };
                    assert(opt_string(jar) == native_jar_spec(*lib, libraries_dir@, key@));
                    match jar {
                        Some(j) => {
                            let excludes = match &lib.extract {
                                Some(e) => clone_strings(&e.exclude),
                                None => Vec::new(),
                            };
                            let ghost before = out@.map_values(|j: ExtractJob| extract_view(j));
                            let job = ExtractJob { jar: j, excludes };
                            let ghost jv = extract_view(job);
                            assert(jv.1 == match lib.extract {
                                Some(e) => str_views(e.exclude@),
                                None => Seq::<Seq<char>>::empty(),
                            });
                            out.push(job);
                            assert(out@.map_values(|j: ExtractJob| extract_view(j)) =~= before.push(jv));
                        },
                        None => {},
                    }
                },
                None => {},
            }
        }
        i = i + 1;
    }
    assert(libs@.take(i as int) =~= libs@);
    let ghost part1 = out@.map_values(|j: ExtractJob| extract_view(j));
    match compat {
        Some(ov) => {
            let arts = &ov.artifacts;
            let mut k: usize = 0;
            proof {
                reveal(Seq::filter);
            }
            assert(arts@.take(0) =~= Seq::<CompatArtifact>::empty());
            assert(out@.map_values(|j: ExtractJob| extract_view(j)) =~= part1 + arts@.take(0).filter(
                |a: CompatArtifact| a.extract,
            ).map_values(|a: CompatArtifact| (path_join(libraries_dir@, a.rel_path@), Seq::<Seq<char>>::empty())));
            while k < arts.len()
                invariant
                    k <= arts@.len(),
                    out@.map_values(|j: ExtractJob| extract_view(j)) == part1 + arts@.take(k as int).filter(
                        |a: CompatArtifact| a.extract,
                    ).map_values(
                        |a: CompatArtifact| (path_join(libraries_dir@, a.rel_path@), Seq::<Seq<char>>::empty()),
                    ),
                decreases arts.len() - k,
            {
                proof {
                    reveal(Seq::filter);
                }
                let ghost t = arts@.take(k + 1);
                assert(t.drop_last() =~= arts@.take(k as int));
                assert(t.last() == arts@[k as int]);
                let ghost f = arts@.take(k as int).filter(|a: CompatArtifact| a.extract);
                let ghost before = out@.map_values(|j: ExtractJob| extract_view(j));
                if arts[k].extract {
                    let job = ExtractJob { jar: join(libraries_dir, arts[k].rel_path.as_str()), excludes: Vec::new() };
                    let ghost jv = extract_view(job);
                    out.push(job);
                    assert(jv.1 =~= Seq::<Seq<char>>::empty());
                    assert(out@.map_values(|j: ExtractJob| extract_view(j)) =~= before.push(jv));
                    assert(t.filter(|a: CompatArtifact| a.extract) == f.push(t.last()));
                    assert(f.push(t.last()).map_values(
                        |a: CompatArtifact| (path_join(libraries_dir@, a.rel_path@), Seq::<Seq<char>>::empty()),
                    ) =~= f.map_values(
                        |a: CompatArtifact| (path_join(libraries_dir@, a.rel_path@), Seq::<Seq<char>>::empty()),
                    ).push(jv));
                    assert(out@.map_values(|j: ExtractJob| extract_view(j)) =~= part1 + t.filter(
                        |a: CompatArtifact| a.extract,
                    ).map_values(|a: CompatArtifact| (path_join(libraries_dir@, a.rel_path@), Seq::<Seq<char>>::empty())));
                } else {
                    assert(t.filter(|a: CompatArtifact| a.extract) == f);
                }
                k = k + 1;
            }
            assert(arts@.take(k as int) =~= arts@);
        },
        None => {
            assert(out@.map_values(|j: ExtractJob| extract_view(j)) =~= part1 + Seq::<(Seq<char>, Seq<Seq<char>>)>::empty());
        },
    }
    out
}

/// The client jar of a version to download, if the version names one: it
/// goes to `<versions_dir>/<id>/<id>.jar`.
pub open spec fn client_job_spec(v: McSpecificVersionDetail, versions_dir: Seq<char>) -> Option<(Seq<char>, Seq<char>, u64, Seq<char>)> {
    match v.downloads {
        Some(d) => match d.client {
            Some(c) => Some(
                (
                    path_join(path_join(versions_dir, v.id@), v.id@ + ".jar"@),
                    c.url@,
                    c.size,
                    c.sha1@,
                ),
            ),
            None => None,
        },
        None => None,
    }
}

/// The client jar of a version to download, if the version names one.
pub fn client_job(version: &McSpecificVersionDetail, versions_dir: &str) -> (r: Option<DownloadJob>)
    ensures
        match r {
            Some(j) => client_job_spec(*version, versions_dir@) == Some(job_view(j)),
            None => client_job_spec(*version, versions_dir@) is None,
        },
{
    match &version.downloads {
        Some(d) => match &d.client {
            Some(c) => {
                let dest = crate::launch::version_jar_path(versions_dir, version.id.as_str(), false);
                Some(DownloadJob { dest, url: c.url.clone(), size: c.size, sha1: c.sha1.clone() })
            },
            None => None,
        },
        None => None,
    }
}

/// Where a version's asset index is kept: `<assets>/indexes/<id>.json`.
pub fn asset_index_path(assets_dir: &str, index_id: &str) -> (r: String)
    ensures
        r@ == path_join(path_join(assets_dir@, "indexes"@), index_id@ + ".json"@),
{
    let d = join(assets_dir, "indexes");
    let mut name = chars_of(index_id);
    crate::text::push_str_chars(&mut name, ".json");
    let n = string_of(name.as_slice());
    join(d.as_str(), n.as_str())
}

/// The error for a version without an asset index.
pub fn no_asset_index_message(version_id: &str) -> (r: String)
    ensures
        r@ == "Version "@ + version_id@ + " has no asset_index"@,
{
    let mut v = chars_of("Version ");
    crate::text::push_str_chars(&mut v, version_id);
    crate::text::push_str_chars(&mut v, " has no asset_index");
    string_of(v.as_slice())
}

/// The characters making up the first two bytes of a hash.
fn hash_prefix(hash: &str) -> (r: String)
    requires
        has_two_byte_prefix(hash@),
    ensures
        r@ == two_byte_prefix(hash@),
{
    let h = chars_of(hash);
    let mut pre: Vec<char> = Vec::new();
    pre.push(h[0]);
    if (h[0] as u32) < 0x80 {
        pre.push(h[1]);
    }
    assert(pre@ =~= two_byte_prefix(hash@));
    string_of(pre.as_slice())
}

/// The download of one asset object: stored under the objects directory by
/// the first two bytes of its hash, then the hash; checked by size and by
/// its hash, which is its SHA-1.
pub open spec fn asset_job_spec(obj: McAssetObject, objects_dir: Seq<char>) -> (Seq<char>, Seq<char>, u64, Seq<char>) {
    (
        path_join(path_join(objects_dir, two_byte_prefix(obj.hash@)), obj.hash@),
        ASSET_SERVER@ + two_byte_prefix(obj.hash@) + "/"@ + obj.hash@,
        obj.size,
        obj.hash@,
    )
}

/// The downloads of an asset index's objects.
pub fn asset_jobs(objects: &McAssetObjects, objects_dir: &str) -> (r: Vec<DownloadJob>)
    requires
        forall|i: int| 0 <= i < objects.objects@.len() ==> has_two_byte_prefix(#[trigger] objects.objects@[i].1.hash@),
    ensures
        jobs_view(r@) == objects.objects@.map_values(
            |p: (String, McAssetObject)| asset_job_spec(p.1, objects_dir@),
        ),
{
    let objs = &objects.objects;
    let ghost want = objs@.map_values(|p: (String, McAssetObject)| asset_job_spec(p.1, objects_dir@));
    let mut out: Vec<DownloadJob> = Vec::new();
    let mut i: usize = 0;
    while i < objs.len()
        invariant
            i <= objs@.len(),
            forall|k: int| 0 <= k < objs@.len() ==> has_two_byte_prefix(#[trigger] objs@[k].1.hash@),
            want == objs@.map_values(|p: (String, McAssetObject)| asset_job_spec(p.1, objects_dir@)),
            jobs_view(out@) == want.take(i as int),
        decreases objs.len() - i,
    {
        let obj = &objs[i].1;
        assert(has_two_byte_prefix(objs@[i as int].1.hash@));
        let pre = hash_prefix(obj.hash.as_str());
        let dir = join(objects_dir, pre.as_str());
        let dest = join(dir.as_str(), obj.hash.as_str());
        let url = obj.download_url();
        let job = DownloadJob { dest, url, size: obj.size, sha1: obj.hash.clone() };
        let ghost before = jobs_view(out@);
        let ghost jv = job_view(job);
        out.push(job);
        assert(jobs_view(out@) =~= before.push(jv));
        assert(want.take(i + 1) =~= want.take(i as int).push(want[i as int]));
        i = i + 1;
    }
    assert(want.take(i as int) =~= want);
    out
}

} // verus!

verus! {

/// How one attempt at a checked download ended.
#[derive(Debug, Clone, Copy, PartialEq, Eq, Structural)]
pub enum DownloadOutcome {
    /// The data had the expected SHA-1 and was saved.
    Saved,
    /// The data arrived with another SHA-1.
    ChecksumMismatch,
    /// The transfer failed.
    Failed,
}

/// What to do after an attempt.
#[derive(Debug, Clone, Copy, PartialEq, Eq, Structural)]
pub enum DownloadAction {
    /// The file is in place.
    Done,
    /// Give up with the last error.
    Fail,
    /// Wait this many milliseconds, then try again.
    RetryAfter(u64),
}

/// After attempt `attempt` (from 0): a saved file is done; a wrong checksum
/// is not retried; a failed transfer is retried, after the growing wait of
/// the next retry, until [`MAX_RETRIES`] attempts were made.
pub open spec fn download_step_spec(attempt: u32, outcome: DownloadOutcome) -> DownloadAction {
    match outcome {
        DownloadOutcome::Saved => DownloadAction::Done,
        DownloadOutcome::ChecksumMismatch => DownloadAction::Fail,
        DownloadOutcome::Failed => if attempt + 1 < MAX_RETRIES {
            DownloadAction::RetryAfter((RETRY_BASE_DELAY_MS * pow2(attempt as nat)) as u64)
        } else {
            DownloadAction::Fail
        },
    }
}

/// Decides what follows an attempt at a checked download.
pub fn download_step(attempt: u32, outcome: DownloadOutcome) -> (r: DownloadAction)
    ensures
        r == download_step_spec(attempt, outcome),
{
    match outcome {
        DownloadOutcome::Saved => DownloadAction::Done,
        DownloadOutcome::ChecksumMismatch => DownloadAction::Fail,
        DownloadOutcome::Failed => if attempt < MAX_RETRIES - 1 {
            DownloadAction::RetryAfter(retry_delay_ms(attempt + 1))
        } else {
            DownloadAction::Fail
        },
    }
}

/// A runtime file entry's download as the plan lists it: the entry's path
/// under the runtime folder, its executable flag, and its raw URL, size and
/// SHA-1.
pub open spec fn java_file_entry_job(e: (String, McJavaFileEntry), root: Seq<char>) -> Option<(Seq<char>, bool, Seq<char>, u64, Seq<char>)> {
    match e.1 {
        McJavaFileEntry::File { executable, downloads } => Some(
            (path_join(root, e.0@), executable, downloads.raw.url@, downloads.raw.size, downloads.raw.sha1@),
        ),
        _ => None,
    }
}

/// Every file of a runtime manifest is downloaded with the flags it has
/// there: for each file entry, the plan holds a download to its path under
/// the runtime folder that keeps the entry's executable flag (so that
/// `bin/java` is made executable) and its raw URL, size and SHA-1.
pub proof fn lemma_java_plan_keeps_file_flags(files: Seq<(String, McJavaFileEntry)>, root: Seq<char>, k: int)
    requires
        0 <= k < files.len(),
        files[k].1 is File,
    ensures
        exists|m: int|
            0 <= m < java_files_spec(files, root).len() && java_files_spec(files, root)[m] == (
                path_join(root, files[k].0@),
                files[k].1->executable,
                files[k].1->downloads.raw.url@,
                files[k].1->downloads.raw.size,
                files[k].1->downloads.raw.sha1@,
            ),
    decreases files.len(),
{
    let n = files.len() - 1;
    let rest = java_files_spec(files.drop_last(), root);
    let want = (
        path_join(root, files[k].0@),
        files[k].1->executable,
        files[k].1->downloads.raw.url@,
        files[k].1->downloads.raw.size,
        files[k].1->downloads.raw.sha1@,
    );
    if k == n {
        assert(files.last() == files[k]);
        assert(java_files_spec(files, root) == rest.push(want));
        assert(java_files_spec(files, root)[rest.len() as int] == want);
    } else {
        assert(files.drop_last()[k] == files[k]);
        lemma_java_plan_keeps_file_flags(files.drop_last(), root, k);
        let m = choose|m: int| 0 <= m < rest.len() && rest[m] == want;
        assert(java_files_spec(files, root)[m] == want);
    }
}

/// Every download the runtime plan lists comes from a file entry of the
/// manifest, with that entry's path, executable flag, URL, size and SHA-1.
pub proof fn lemma_java_plan_files_from_entries(files: Seq<(String, McJavaFileEntry)>, root: Seq<char>, m: int)
    requires
        0 <= m < java_files_spec(files, root).len(),
    ensures
        exists|k: int|
            0 <= k < files.len() && java_file_entry_job(#[trigger] files[k], root) == Some(
                java_files_spec(files, root)[m],
            ),
    decreases files.len(),
{
    let rest = java_files_spec(files.drop_last(), root);
    if files.len() > 0 {
        if m < rest.len() {
            assert(java_files_spec(files, root)[m] == rest[m]);
            lemma_java_plan_files_from_entries(files.drop_last(), root, m);
            let k = choose|k: int|
                0 <= k < files.drop_last().len() && java_file_entry_job(#[trigger] files.drop_last()[k], root)
                    == Some(rest[m]);
            assert(files.drop_last()[k] == files[k]);
        } else {
            let n = files.len() - 1;
            assert(files.last() == files[n]);
            assert(java_file_entry_job(files[n], root) == Some(java_files_spec(files, root)[m]));
        }
    }
}

/// The natives of every library in use are downloaded: when the host's
/// natives classifier of a library in use is listed among its download
/// classifiers (and its destination is known), the install jobs hold that
/// classifier artifact's download to its path under the libraries folder.
pub proof fn lemma_install_jobs_include_natives(
    v: McSpecificVersionDetail,
    libdir: Seq<char>,
    compat: Option<MacosArm64Override>,
    p: Platform,
    k: int,
    key: Seq<char>,
    a: McArtifactInfo,
    dest: Seq<char>,
)
    requires
        0 <= k < v.libraries@.len(),
        lib_in_use(v.libraries@[k], compat, p),
        native_key_spec(v.libraries@[k], p) == Some(key),
        v.libraries@[k].downloads matches Some(d) && d.classifiers matches Some(c) && assoc_find(c@, key)
            == Some(a),
        artifact_dest(a.path, v.libraries@[k].name@ + ":"@ + key, libdir) == Some(dest),
    ensures
        exists|m: int|
            0 <= m < install_jobs_spec(v, libdir, compat, p).len() && install_jobs_spec(v, libdir, compat, p)[m]
                == (dest, a.url@, a.size, a.sha1@),
{
    lemma_library_jobs_include_natives(v.libraries@, libdir, compat, p, k, key, a, dest);
    let lj = library_jobs_spec(v.libraries@, libdir, compat, p);
    let m = choose|m: int| 0 <= m < lj.len() && lj[m] == (dest, a.url@, a.size, a.sha1@);
    let all = install_jobs_spec(v, libdir, compat, p);
    assert(all[m] == lj[m]);
}

proof fn lemma_library_jobs_include_natives(
    libs: Seq<McLibrary>,
    libdir: Seq<char>,
    compat: Option<MacosArm64Override>,
    p: Platform,
    k: int,
    key: Seq<char>,
    a: McArtifactInfo,
    dest: Seq<char>,
)
    requires
        0 <= k < libs.len(),
        lib_in_use(libs[k], compat, p),
        native_key_spec(libs[k], p) == Some(key),
        libs[k].downloads matches Some(d) && d.classifiers matches Some(c) && assoc_find(c@, key) == Some(a),
        artifact_dest(a.path, libs[k].name@ + ":"@ + key, libdir) == Some(dest),
    ensures
        exists|m: int|
            0 <= m < library_jobs_spec(libs, libdir, compat, p).len() && library_jobs_spec(libs, libdir, compat, p)[m]
                == (dest, a.url@, a.size, a.sha1@),
    decreases libs.len(),
{
    let n = libs.len() - 1;
    let rest = library_jobs_spec(libs.drop_last(), libdir, compat, p);
    let want = (dest, a.url@, a.size, a.sha1@);
    if k == n {
        assert(libs.last() == libs[k]);
        let reg = opt_seq(regular_job(libs.last(), libdir));
        assert(classifier_job(libs.last(), libdir, p) == Some(want));
        let all = rest + reg + opt_seq(classifier_job(libs.last(), libdir, p));
        assert(library_jobs_spec(libs, libdir, compat, p) == all);
        assert(all[(rest.len() + reg.len()) as int] == want);
    } else {
        assert(libs.drop_last()[k] == libs[k]);
        lemma_library_jobs_include_natives(libs.drop_last(), libdir, compat, p, k, key, a, dest);
        let m = choose|m: int| 0 <= m < rest.len() && rest[m] == want;
        if lib_in_use(libs.last(), compat, p) {
            let all = rest + opt_seq(regular_job(libs.last(), libdir)) + opt_seq(
                classifier_job(libs.last(), libdir, p),
            );
            assert(library_jobs_spec(libs, libdir, compat, p) == all);
            assert(all[m] == want);
        } else {
            assert(library_jobs_spec(libs, libdir, compat, p) == rest);
        }
        assert(library_jobs_spec(libs, libdir, compat, p)[m] == want);
    }
}

/// Every folder and link of a runtime manifest is made: each directory
/// entry's path under the runtime folder is among the folders, and each
/// link entry's path with its target is among the links.
pub proof fn lemma_java_plan_dirs_and_links(files: Seq<(String, McJavaFileEntry)>, root: Seq<char>, k: int)
    requires
        0 <= k < files.len(),
    ensures
        files[k].1 is Directory ==> java_dirs_spec(files, root).contains(path_join(root, files[k].0@)),
        files[k].1 is Link ==> java_links_spec(files, root).contains(
            (path_join(root, files[k].0@), files[k].1->target@),
        ),
    decreases files.len(),
{
    let n = files.len() - 1;
    let rd = java_dirs_spec(files.drop_last(), root);
    let rl = java_links_spec(files.drop_last(), root);
    let d = path_join(root, files[k].0@);
    if k == n {
        assert(files.last() == files[k]);
        if files[k].1 is Directory {
            assert(java_dirs_spec(files, root) == rd.push(d));
            assert(java_dirs_spec(files, root)[rd.len() as int] == d);
        }
        if files[k].1 is Link {
            let l = (d, files[k].1->target@);
            assert(java_links_spec(files, root) == rl.push(l));
            assert(java_links_spec(files, root)[rl.len() as int] == l);
        }
    } else {
        assert(files.drop_last()[k] == files[k]);
        lemma_java_plan_dirs_and_links(files.drop_last(), root, k);
        if files[k].1 is Directory {
            let m = choose|m: int| 0 <= m < rd.len() && rd[m] == d;
            assert(java_dirs_spec(files, root)[m] == d);
        }
        if files[k].1 is Link {
            let l = (d, files[k].1->target@);
            let m = choose|m: int| 0 <= m < rl.len() && rl[m] == l;
            assert(java_links_spec(files, root)[m] == l);
        }
    }
}

/// The main artifact of every library in use is downloaded: when a library
/// in use has a main artifact whose destination is known, the install jobs
/// hold its download to that path under the libraries folder.
pub proof fn lemma_install_jobs_include_artifacts(
    v: McSpecificVersionDetail,
    libdir: Seq<char>,
    compat: Option<MacosArm64Override>,
    p: Platform,
    k: int,
    a: McArtifactInfo,
    dest: Seq<char>,
)
    requires
        0 <= k < v.libraries@.len(),
        lib_in_use(v.libraries@[k], compat, p),
        v.libraries@[k].downloads matches Some(d) && d.artifact == Some(a),
        artifact_dest(a.path, v.libraries@[k].name@, libdir) == Some(dest),
    ensures
        exists|m: int|
            0 <= m < install_jobs_spec(v, libdir, compat, p).len() && install_jobs_spec(v, libdir, compat, p)[m]
                == (dest, a.url@, a.size, a.sha1@),
{
    lemma_library_jobs_include_artifacts(v.libraries@, libdir, compat, p, k, a, dest);
    let lj = library_jobs_spec(v.libraries@, libdir, compat, p);
    let m = choose|m: int| 0 <= m < lj.len() && lj[m] == (dest, a.url@, a.size, a.sha1@);
    assert(install_jobs_spec(v, libdir, compat, p)[m] == lj[m]);
}

proof fn lemma_library_jobs_include_artifacts(
    libs: Seq<McLibrary>,
    libdir: Seq<char>,
    compat: Option<MacosArm64Override>,
    p: Platform,
    k: int,
    a: McArtifactInfo,
    dest: Seq<char>,
)
    requires
        0 <= k < libs.len(),
        lib_in_use(libs[k], compat, p),
        libs[k].downloads matches Some(d) && d.artifact == Some(a),
        artifact_dest(a.path, libs[k].name@, libdir) == Some(dest),
    ensures
        exists|m: int|
            0 <= m < library_jobs_spec(libs, libdir, compat, p).len() && library_jobs_spec(libs, libdir, compat, p)[m]
                == (dest, a.url@, a.size, a.sha1@),
    decreases libs.len(),
{
    let n = libs.len() - 1;
    let rest = library_jobs_spec(libs.drop_last(), libdir, compat, p);
    let want = (dest, a.url@, a.size, a.sha1@);
    if k == n {
        assert(libs.last() == libs[k]);
        assert(regular_job(libs.last(), libdir) == Some(want));
        let all = rest + opt_seq(regular_job(libs.last(), libdir)) + opt_seq(classifier_job(libs.last(), libdir, p));
        assert(library_jobs_spec(libs, libdir, compat, p) == all);
        assert(all[rest.len() as int] == want);
    } else {
        assert(libs.drop_last()[k] == libs[k]);
        lemma_library_jobs_include_artifacts(libs.drop_last(), libdir, compat, p, k, a, dest);
        let m = choose|m: int| 0 <= m < rest.len() && rest[m] == want;
        if lib_in_use(libs.last(), compat, p) {
            let all = rest + opt_seq(regular_job(libs.last(), libdir)) + opt_seq(
                classifier_job(libs.last(), libdir, p),
            );
            assert(library_jobs_spec(libs, libdir, compat, p) == all);
            assert(all[m] == want);
        } else {
            assert(library_jobs_spec(libs, libdir, compat, p) == rest);
        }
        assert(library_jobs_spec(libs, libdir, compat, p)[m] == want);
    }
}

} // verus!
