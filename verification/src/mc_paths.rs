//! Where the launcher keeps its files, under one data directory.
use vstd::prelude::*;
use crate::paths::{join, path_join, HostOs};
use crate::text::{chars_of, push_str_chars, string_of};

verus! {

/// The launcher's data directory and the places under it.
pub struct McPaths {
    base: String,
}

impl View for McPaths {
    type V = Seq<char>;

    closed spec fn view(&self) -> Seq<char> {
        self.base@
    }
}

/// The message given when the system has no data directory for the launcher.
pub const NO_DATA_DIR: &'static str = "Failed to get system app directory";

/// The launcher's identity for the system's per-application folders:
/// qualifier, organization and application name.
pub const APP_QUALIFIER: &'static str = "com";

/// See [`APP_QUALIFIER`].
pub const APP_ORGANIZATION: &'static str = "Duacodie";

/// See [`APP_QUALIFIER`].
pub const APP_NAME: &'static str = "VoxelRuler";

/// directories' `ProjectDirs::from(qualifier, organization, application)`,
/// then its `data_dir` as text; `None` when the system has no home
/// directory to derive it from, or when the directory is not valid UTF-8
/// text (rather than a lossy copy naming another directory). What
/// directory comes back depends on the system and its environment, so
/// nothing is claimed of it.
#[verifier::external_body]
fn project_data_dir(qualifier: &str, organization: &str, application: &str) -> (r: Option<String>) {
    directories::ProjectDirs::from(qualifier, organization, application).and_then(
        |p| p.data_dir().to_str().map(|d| d.to_owned()),
    )
}

impl McPaths {
    /// The paths under the system's data directory for the launcher; an
    /// error when the system has none.
    pub fn new() -> (r: Result<McPaths, String>)
        ensures
            r matches Err(e) ==> e@ == NO_DATA_DIR@,
    {
        Self::from_data_dir(project_data_dir(APP_QUALIFIER, APP_ORGANIZATION, APP_NAME))
    }

    /// The paths under a data directory, if there is one.
    pub fn from_data_dir(dir: Option<String>) -> (r: Result<McPaths, String>)
        ensures
            match dir {
                Some(d) => r matches Ok(p) && p@ == d@,
                None => r matches Err(e) && e@ == NO_DATA_DIR@,
            },
    {
        match dir {
            Some(d) => Ok(McPaths { base: d }),
            None => Err(String::from_str(NO_DATA_DIR)),
        }
    }

    /// The paths under the directory `base`.
    pub fn with_base(base: &str) -> (r: McPaths)
        ensures
            r@ == base@,
    {
        McPaths { base: String::from_str(base) }
    }

    /// The data directory itself.
    pub fn base_dir(&self) -> (r: String)
        ensures
            r@ == self@,
    {
        self.base.clone()
    }

    /// `<base>/versions`.
    pub fn versions_dir(&self) -> (r: String)
        ensures
            r@ == path_join(self@, "versions"@),
    {
        join(self.base.as_str(), "versions")
    }

    /// `<base>/versions/<id>`.
    pub fn version_dir(&self, version_id: &str) -> (r: String)
        ensures
            r@ == path_join(path_join(self@, "versions"@), version_id@),
    {
        let d = self.versions_dir();
        join(d.as_str(), version_id)
    }

    /// `<base>/versions/<id>/<id>.jar`.
    pub fn version_jar(&self, version_id: &str) -> (r: String)
        ensures
            r@ == path_join(path_join(path_join(self@, "versions"@), version_id@), version_id@ + ".jar"@),
    {
        let d = self.version_dir(version_id);
        let mut name = chars_of(version_id);
        push_str_chars(&mut name, ".jar");
        let n = string_of(name.as_slice());
        join(d.as_str(), n.as_str())
    }

    /// `<base>/versions/<id>/<id>.json`, where a version's profile is kept.
    pub fn version_json(&self, version_id: &str) -> (r: String)
        ensures
            r@ == path_join(path_join(path_join(self@, "versions"@), version_id@), version_id@ + ".json"@),
    {
        let d = self.version_dir(version_id);
        let mut name = chars_of(version_id);
        push_str_chars(&mut name, ".json");
        let n = string_of(name.as_slice());
        join(d.as_str(), n.as_str())
    }

    /// `<base>/libraries`.
    pub fn libraries_dir(&self) -> (r: String)
        ensures
            r@ == path_join(self@, "libraries"@),
    {
        join(self.base.as_str(), "libraries")
    }

    /// `<base>/assets`.
    pub fn assets_dir(&self) -> (r: String)
        ensures
            r@ == path_join(self@, "assets"@),
    {
        join(self.base.as_str(), "assets")
    }

    /// `<base>/assets/indexes`.
    pub fn asset_indexes_dir(&self) -> (r: String)
        ensures
            r@ == path_join(path_join(self@, "assets"@), "indexes"@),
    {
        let d = self.assets_dir();
        join(d.as_str(), "indexes")
    }

    /// `<base>/assets/objects`.
    pub fn asset_objects_dir(&self) -> (r: String)
        ensures
            r@ == path_join(path_join(self@, "assets"@), "objects"@),
    {
        let d = self.assets_dir();
        join(d.as_str(), "objects")
    }

    /// `<base>/java/<component>`.
    pub fn java_dir(&self, component: &str) -> (r: String)
        ensures
            r@ == path_join(path_join(self@, "java"@), component@),
    {
        let d = join(self.base.as_str(), "java");
        join(d.as_str(), component)
    }

    /// The Java executable of a runtime component: `bin/javaw.exe` on
    /// Windows, `jre.bundle/Contents/Home/bin/java` on macOS, `bin/java`
    /// elsewhere.
    pub fn java_bin(&self, component: &str, os: HostOs) -> (r: String)
        ensures
            r@ == (match os {
                HostOs::Windows => path_join(path_join(path_join(path_join(self@, "java"@), component@), "bin"@), "javaw.exe"@),
                HostOs::MacOs => path_join(
                    path_join(
                        path_join(
                            path_join(
                                path_join(path_join(path_join(self@, "java"@), component@), "jre.bundle"@),
                                "Contents"@,
                            ),
                            "Home"@,
                        ),
                        "bin"@,
                    ),
                    "java"@,
                ),
                _ => path_join(path_join(path_join(path_join(self@, "java"@), component@), "bin"@), "java"@),
            }),
    {
        let d = self.java_dir(component);
        match os {
            HostOs::Windows => {
                let b = join(d.as_str(), "bin");
                join(b.as_str(), "javaw.exe")
            },
            HostOs::MacOs => {
                let a = join(d.as_str(), "jre.bundle");
                let b = join(a.as_str(), "Contents");
                let c = join(b.as_str(), "Home");
                let e = join(c.as_str(), "bin");
                join(e.as_str(), "java")
            },
            _ => {
                let b = join(d.as_str(), "bin");
                join(b.as_str(), "java")
            },
        }
    }

    /// `<base>/instances`.
    pub fn instances_base_dir(&self) -> (r: String)
        ensures
            r@ == path_join(self@, "instances"@),
    {
        join(self.base.as_str(), "instances")
    }

    /// `<base>/instances/<id>`.
    pub fn instance_dir(&self, instance_id: &str) -> (r: String)
        ensures
            r@ == path_join(path_join(self@, "instances"@), instance_id@),
    {
        let d = self.instances_base_dir();
        join(d.as_str(), instance_id)
    }

    /// `<base>/skins`.
    pub fn skins_dir(&self) -> (r: String)
        ensures
            r@ == path_join(self@, "skins"@),
    {
        join(self.base.as_str(), "skins")
    }

    /// `<base>/skins/index.json`, the skin history.
    pub fn skins_history_file(&self) -> (r: String)
        ensures
            r@ == path_join(path_join(self@, "skins"@), "index.json"@),
    {
        let d = self.skins_dir();
        join(d.as_str(), "index.json")
    }

    /// `<base>/capes`.
    pub fn capes_dir(&self) -> (r: String)
        ensures
            r@ == path_join(self@, "capes"@),
    {
        join(self.base.as_str(), "capes")
    }

    /// `<base>/versions/<id>/natives`.
    pub fn natives_dir(&self, version_id: &str) -> (r: String)
        ensures
            r@ == path_join(path_join(path_join(self@, "versions"@), version_id@), "natives"@),
    {
        let d = self.version_dir(version_id);
        join(d.as_str(), "natives")
    }

    /// `<base>/settings.toml`, the launcher's settings.
    pub fn settings_file(&self) -> (r: String)
        ensures
            r@ == path_join(self@, "settings.toml"@),
    {
        join(self.base.as_str(), "settings.toml")
    }
}

} // verus!
