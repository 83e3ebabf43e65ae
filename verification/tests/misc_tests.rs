use voxelruler::java_scan::{brew_candidates, java_candidate, java_exe_name, sort_dedup};
use voxelruler::mc_api::{
    account_url, owns_game, ACTIVE_CAPE_PATH, ENTITLEMENTS_PATH, SKINS_PATH, latest_release, player_name_url, player_uuid_url, release_ids, retry_delay, ApiOutcome,
    SessionData,
};
use voxelruler::mc_legacy_fml::{fmllib_url, get_fmllib_filenames};
use voxelruler::mc_paths::{McPaths, NO_DATA_DIR};
use voxelruler::mc_types::{McLatestVersion, McVersion, McVersionInfo};
use voxelruler::paths::HostOs;
use voxelruler::view::{
    tab_listing, detail_category_dir, detail_category_tab, java_label_to_mode, java_mode_to_label,
    java_too_old, play_time_label, player_identity, runtime_dir_name, runtime_fallback_arch,
};

#[test]
fn fml_libraries_by_game_version() {
    assert_eq!(
        get_fmllib_filenames("1.5.2-Forge7.8.1.737"),
        vec![
            "deobfuscation_data_1.5.2.zip",
            "bcprov-jdk15on-147.jar",
            "argo-small-3.2.jar",
            "guava-14.0-rc3.jar",
            "asm-all-4.1.jar"
        ]
    );
    assert_eq!(get_fmllib_filenames("1.4.7-Forge6.6.2.534").len(), 4);
    assert!(get_fmllib_filenames("1.7.10-Forge10.13.4.1614").is_empty());
    assert_eq!(
        fmllib_url("argo-2.25.jar"),
        "https://files.prismlauncher.org/fmllibs/argo-2.25.jar"
    );
}

#[test]
fn paths_under_base_directory() {
    let p = McPaths::with_base("/data");
    assert_eq!(p.base_dir(), "/data");
    assert_eq!(p.versions_dir(), "/data/versions");
    assert_eq!(p.version_dir("1.21"), "/data/versions/1.21");
    assert_eq!(p.version_jar("1.21"), "/data/versions/1.21/1.21.jar");
    assert_eq!(p.version_json("1.21"), "/data/versions/1.21/1.21.json");
    assert_eq!(p.libraries_dir(), "/data/libraries");
    assert_eq!(p.asset_indexes_dir(), "/data/assets/indexes");
    assert_eq!(p.asset_objects_dir(), "/data/assets/objects");
    assert_eq!(p.java_dir("java-runtime-delta"), "/data/java/java-runtime-delta");
    assert_eq!(
        p.java_bin("jre-legacy", HostOs::Linux),
        "/data/java/jre-legacy/bin/java"
    );
    assert_eq!(
        p.java_bin("jre-legacy", HostOs::MacOs),
        "/data/java/jre-legacy/jre.bundle/Contents/Home/bin/java"
    );
    assert_eq!(p.instance_dir("abc"), "/data/instances/abc");
    assert_eq!(p.skins_history_file(), "/data/skins/index.json");
    assert_eq!(p.capes_dir(), "/data/capes");
    assert_eq!(p.natives_dir("1.21"), "/data/versions/1.21/natives");
    assert!(matches!(McPaths::from_data_dir(None), Err(e) if e == NO_DATA_DIR));
    assert_eq!(McPaths::from_data_dir(Some("/x".into())).unwrap().base_dir(), "/x");
}

#[test]
fn api_retry_backoff_and_retry_after() {
    assert_eq!(retry_delay(0, ApiOutcome::Answered), None);
    assert_eq!(retry_delay(0, ApiOutcome::ServerError), Some(1000));
    assert_eq!(retry_delay(2, ApiOutcome::Failed), Some(4000));
    assert_eq!(retry_delay(1, ApiOutcome::TooManyRequests(Some("7".into()))), Some(7000));
    assert_eq!(retry_delay(1, ApiOutcome::TooManyRequests(Some("soon".into()))), Some(2000));
    assert_eq!(retry_delay(3, ApiOutcome::TooManyRequests(None)), Some(8000));
}

fn mc_version(id: &str, t: &str) -> McVersion {
    McVersion {
        id: id.into(),
        version_type: t.into(),
        url: String::new(),
        time: String::new(),
        release_time: String::new(),
        sha1: String::new(),
        compliance_level: 0,
    }
}

#[test]
fn manifest_queries() {
    let m = McVersionInfo {
        latest: McLatestVersion {
            release: "1.21".into(),
            snapshot: "24w01a".into(),
        },
        versions: vec![
            mc_version("24w01a", "snapshot"),
            mc_version("1.21", "release"),
            mc_version("1.20", "release"),
        ],
    };
    assert_eq!(latest_release(&m), Some(1));
    assert_eq!(release_ids(&m.versions), vec!["1.21".to_string(), "1.20".to_string()]);
    assert_eq!(
        player_uuid_url("Steve"),
        "https://api.minecraftservices.com/minecraft/profile/lookup/name/Steve"
    );
    assert!(player_name_url("abc").ends_with("abc"));
}

#[test]
fn session_token_validity() {
    let s = SessionData::new("r".into(), "a".into(), 100);
    assert_eq!(s.microsoft_refresh_token(), "r");
    assert_eq!(s.minecraft_access_token(), "a");
    assert_eq!(*s.mc_token_expires_at(), 100);
    assert!(s.token_valid_at(100));
    assert!(!s.token_valid_at(101));
}

#[test]
fn view_labels_and_modes() {
    assert_eq!(java_mode_to_label("custom", true), "Use Custom Java");
    assert_eq!(java_mode_to_label("", true), "Use Global Settings");
    assert_eq!(java_mode_to_label("", false), "Use Minecraft Runtime");
    assert_eq!(java_label_to_mode("Use Custom Java"), "custom");
    assert_eq!(java_label_to_mode("anything"), "global");
    assert_eq!(play_time_label(0), "");
    assert_eq!(play_time_label(3725), "1h 2m");
    assert_eq!(detail_category_dir("/i", "root"), "/i");
    assert_eq!(detail_category_dir("/i", "worlds"), "/i/saves");
    assert_eq!(detail_category_dir("/i", "mods"), "/i/mods");
    assert_eq!(detail_category_tab("mods"), 2);
    assert_eq!(detail_category_tab("worlds"), 6);
    assert_eq!(detail_category_tab("other"), -1);
    assert_eq!(java_too_old(Some(8), Some(17)), Some((17, 8)));
    assert_eq!(java_too_old(Some(21), Some(17)), None);
    assert_eq!(java_too_old(None, Some(17)), None);
    assert_eq!(runtime_fallback_arch("mac-os-arm64"), Some("mac-os"));
    assert_eq!(runtime_fallback_arch("linux"), None);
    assert_eq!(runtime_dir_name("jre-legacy", "mac-os", "mac-os-arm64"), "jre-legacy-mac-os");
    assert_eq!(runtime_dir_name("jre-legacy", "linux", "linux"), "jre-legacy");
    let (name, id) = player_identity(None);
    assert_eq!(name, "Player");
    assert_eq!(id, "00000000-0000-0000-0000-000000000000");
}

#[test]
fn java_scan_candidates() {
    assert_eq!(java_exe_name(HostOs::Windows), "javaw.exe");
    assert_eq!(java_exe_name(HostOs::Linux), "java");
    assert_eq!(java_candidate("/usr/lib/jvm/x", "", HostOs::Linux), "/usr/lib/jvm/x/bin/java");
    assert_eq!(
        java_candidate("/L/jdk", "Contents/Home", HostOs::MacOs),
        "/L/jdk/Contents/Home/bin/java"
    );
    assert_eq!(brew_candidates("/opt/homebrew/opt/openjdk", "openjdk", HostOs::MacOs).len(), 2);
    assert!(brew_candidates("/opt/homebrew/opt/git", "git", HostOs::MacOs).is_empty());
    let found = vec!["/b".to_string(), "/a".to_string(), "/b".to_string()];
    assert_eq!(sort_dedup(&found), vec!["/a".to_string(), "/b".to_string()]);
}

#[test]
fn detail_tabs_list_their_folders() {
    assert_eq!(tab_listing(detail_category_tab("mods")), Some(("mods", ".jar", false)));
    assert_eq!(tab_listing(3), Some(("resourcepacks", ".zip", true)));
    assert_eq!(tab_listing(4), Some(("shaderpacks", ".zip", true)));
    assert_eq!(tab_listing(6), None);
}

#[test]
fn fmllibs_depend_on_the_game_version_only() {
    assert_eq!(get_fmllib_filenames("1.6.4-Forge9.11.1.965"), get_fmllib_filenames("1.6.4"));
    assert_eq!(get_fmllib_filenames("1.6.4-Forge9.11.1.965")[0], "deobfuscation_data_1.6.4.zip");
    assert_eq!(
        get_fmllib_filenames("1.4.2-Forge6.0.1.355"),
        vec!["bcprov-jdk15on-147.jar", "argo-2.25.jar", "guava-12.0.1.jar", "asm-all-4.0.jar"]
    );
    assert!(get_fmllib_filenames("1.7.10-Forge10.13.4.1614").is_empty());
    assert!(get_fmllib_filenames("1.6").is_empty());
}

#[test]
fn game_ownership_needs_the_game_entitlement() {
    assert!(owns_game(&vec![Some("product_minecraft".to_string()), Some("game_minecraft".to_string())]));
    assert!(!owns_game(&vec![Some("product_minecraft".to_string()), None]));
    assert!(!owns_game(&vec![Some("game_minecraft_bedrock".to_string())]));
    assert!(!owns_game(&vec![]));
}

#[test]
fn account_endpoints() {
    assert_eq!(account_url(SKINS_PATH), "https://api.minecraftservices.com/minecraft/profile/skins");
    assert_eq!(account_url(ACTIVE_CAPE_PATH), "https://api.minecraftservices.com/minecraft/profile/capes/active");
    assert_eq!(account_url(ENTITLEMENTS_PATH), "https://api.minecraftservices.com/entitlements/mcstore");
}
