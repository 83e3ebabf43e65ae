use voxelruler::mc_modloader::{
    FabricLoaderEntry, FabricLoaderInfo, ForgeInstallerPlan, InstallProfile, LoaderAvailability,
    LoaderFetchResult, ModLoaderApi, ModLoaderType, OldFormatError,
};

#[test]
fn test_from_name() {
    assert_eq!(ModLoaderType::from_name("Forge"), Some(ModLoaderType::Forge));
    assert_eq!(ModLoaderType::from_name("NeoForge"), Some(ModLoaderType::NeoForge));
    assert_eq!(ModLoaderType::from_name("Fabric"), Some(ModLoaderType::Fabric));
    assert_eq!(ModLoaderType::from_name("None"), None);
    assert_eq!(ModLoaderType::from_name(""), None);
    assert_eq!(ModLoaderType::from_name("forge"), None);
}

#[test]
fn test_default_version_index_priority() {
    let versions = vec![
        "49.0.50".to_string(),
        "49.0.30 (Latest)".to_string(),
        "49.0.10 (Stable)".to_string(),
        "49.0.3 (Recommended)".to_string(),
    ];
    assert_eq!(ModLoaderApi::default_version_index(&versions), 3);

    let versions = vec!["0.15.7 (Beta)".to_string(), "0.15.6 (Stable)".to_string()];
    assert_eq!(ModLoaderApi::default_version_index(&versions), 1);

    let versions = vec!["a".to_string(), "b".to_string()];
    assert_eq!(ModLoaderApi::default_version_index(&versions), 0);
}

#[test]
fn test_matches_promo() {
    assert!(ModLoaderApi::matches_promo("1.20.1-47.4.10", "1.20.1", "47.4.10"));
    assert!(ModLoaderApi::matches_promo(
        "1.7.10-10.13.4.1614-1.7.10",
        "1.7.10",
        "10.13.4.1614"
    ));
    assert!(!ModLoaderApi::matches_promo("1.20.1-47.4.10", "1.20.1", "47.4.1"));
    assert!(!ModLoaderApi::matches_promo("1.20.1-47.4.10", "1.20.1", ""));
}

#[test]
fn test_version_sort_key_ordering() {
    assert!(ModLoaderApi::version_sort_key("47.4.10") > ModLoaderApi::version_sort_key("47.4.9"));
    assert!(
        ModLoaderApi::version_sort_key("10.13.4.1614-1.7.10")
            > ModLoaderApi::version_sort_key("10.13.2.1230-1.7.10")
    );
}

#[test]
fn test_get_neoforge_prefix() {
    assert_eq!(ModLoaderApi::get_neoforge_prefix("1.20.4"), "20.4.");
    assert_eq!(ModLoaderApi::get_neoforge_prefix("1.21"), "21.0.");
    assert_eq!(ModLoaderApi::get_neoforge_prefix("26.1"), "26.1.");
}

#[test]
fn test_maven_coords_to_path() {
    assert_eq!(
        ModLoaderApi::maven_coords_to_path("net.minecraftforge:forge:1.12.2-14.23.5.2859"),
        "net/minecraftforge/forge/1.12.2-14.23.5.2859/forge-1.12.2-14.23.5.2859.jar"
    );
    assert_eq!(
        ModLoaderApi::maven_coords_to_path("org.lwjgl:lwjgl:3.2.3:natives-macos"),
        "org/lwjgl/lwjgl/3.2.3/lwjgl-3.2.3-natives-macos.jar"
    );
    assert_eq!(ModLoaderApi::maven_coords_to_path("broken"), "broken");
}

#[test]
fn sort_key_takes_every_digit_run() {
    assert_eq!(ModLoaderApi::version_sort_key("47.4.10"), vec![47, 4, 10]);
    assert_eq!(ModLoaderApi::version_sort_key("1.20.1-beta2"), vec![1, 20, 1, 2]);
    assert_eq!(ModLoaderApi::version_sort_key("abc"), Vec::<u64>::new());
    assert_eq!(
        ModLoaderApi::version_sort_key("99999999999999999999.1"),
        vec![u64::MAX, 1]
    );
}

#[test]
fn selected_versions_are_filtered_and_newest_first() {
    let all: Vec<String> = ["1.20.1-47.4.9", "1.20.2-48.0.1", "1.20.1-47.4.10", "1.20.1-46.0.14"]
        .iter()
        .map(|s| s.to_string())
        .collect();
    let out = ModLoaderApi::select_versions(&all, "1.20.1-");
    assert_eq!(out, vec!["1.20.1-47.4.10", "1.20.1-47.4.9", "1.20.1-46.0.14"]);
}

#[test]
fn selected_versions_keep_order_of_equal_keys() {
    let all: Vec<String> = ["20.4.1-beta", "20.4.1", "20.4.2"].iter().map(|s| s.to_string()).collect();
    let out = ModLoaderApi::select_versions(&all, "20.4.");
    assert_eq!(out, vec!["20.4.2", "20.4.1-beta", "20.4.1"]);
}

#[test]
fn forge_labels_mark_promotions() {
    let versions: Vec<String> = ["1.20.1-47.4.10", "1.20.1-47.4.9", "1.20.1-47.3.0"]
        .iter()
        .map(|s| s.to_string())
        .collect();
    let out = ModLoaderApi::label_forge_versions(&versions, "1.20.1", "47.3.0", "47.4.10");
    assert_eq!(
        out,
        vec!["1.20.1-47.4.10 (Latest)", "1.20.1-47.4.9", "1.20.1-47.3.0 (Recommended)"]
    );
}

#[test]
fn neoforge_labels_mark_betas() {
    let versions: Vec<String> = ["21.0.1-beta", "20.4.237"].iter().map(|s| s.to_string()).collect();
    assert_eq!(
        ModLoaderApi::label_neoforge_versions(&versions),
        vec!["21.0.1-beta (Beta)", "20.4.237 (Stable)"]
    );
}

#[test]
fn fabric_labels_mark_stability() {
    let entries = vec![
        FabricLoaderEntry {
            loader: FabricLoaderInfo {
                version: "0.15.7".into(),
                stable: false,
            },
        },
        FabricLoaderEntry {
            loader: FabricLoaderInfo {
                version: "0.15.6".into(),
                stable: true,
            },
        },
    ];
    assert_eq!(
        ModLoaderApi::label_fabric_versions(&entries),
        vec!["0.15.7 (Beta)", "0.15.6 (Stable)"]
    );
}

#[test]
fn availability_from_lists() {
    let fabric = Some(Vec::<String>::new());
    let forge = Some(vec!["1.20.1-47.4.10".to_string()]);
    let neo = Some(vec!["20.4.237".to_string()]);
    let a = ModLoaderApi::availability_from("1.20.1", &fabric, &forge, &neo);
    assert!(!a.fabric);
    assert!(a.forge);
    assert!(!a.neoforge);
    let unknown = ModLoaderApi::availability_from("1.20.4", &None, &None, &None);
    assert!(unknown.fabric && unknown.forge && unknown.neoforge);
    let neo_ok = ModLoaderApi::availability_from("1.20.4", &None, &Some(vec![]), &neo);
    assert!(neo_ok.neoforge);
    assert!(!neo_ok.forge);
}

#[test]
fn supports_and_loader_to_fetch() {
    let a = LoaderAvailability {
        fabric: true,
        forge: false,
        neoforge: true,
    };
    assert!(a.supports(ModLoaderType::Fabric));
    assert!(!a.supports(ModLoaderType::Forge));
    assert_eq!(ModLoaderApi::loader_to_fetch(&a, Some(ModLoaderType::NeoForge)), Some(ModLoaderType::NeoForge));
    assert_eq!(ModLoaderApi::loader_to_fetch(&a, Some(ModLoaderType::Forge)), None);
    assert_eq!(ModLoaderApi::loader_to_fetch(&a, None), None);
}

#[test]
fn fetch_result_from_outcome() {
    let a = LoaderAvailability {
        fabric: true,
        forge: true,
        neoforge: true,
    };
    let r = LoaderFetchResult::from_outcome(a, Some(Ok(vec!["x".to_string()])));
    assert_eq!(r.versions, vec!["x"]);
    assert!(r.error.is_none());
    let r = LoaderFetchResult::from_outcome(a, Some(Err("boom".to_string())));
    assert!(r.versions.is_empty());
    assert_eq!(r.error.as_deref(), Some("boom"));
    let r = LoaderFetchResult::from_outcome(a, None);
    assert!(r.versions.is_empty() && r.error.is_none());
}

#[test]
fn profile_ids() {
    assert_eq!(ModLoaderApi::fabric_profile_id("0.15.7", "1.20.4"), "fabric-loader-0.15.7-1.20.4");
    assert_eq!(ModLoaderApi::forge_profile_id("1.20.1-47.2.0"), "1.20.1-forge-47.2.0");
    assert_eq!(ModLoaderApi::forge_profile_id("1.4.7-6.6.2.534"), "1.4.7-forge-6.6.2.534");
    assert_eq!(ModLoaderApi::forge_profile_id("nodash"), "nodash");
    assert_eq!(ModLoaderApi::neoforge_profile_id("20.4.237"), "neoforge-20.4.237");
    assert_eq!(
        ModLoaderApi::forge_effective_id(true, Some("1.6.4-Forge9.11.1.965".into()), "1.6.4-9.11.1.965"),
        "1.6.4-Forge9.11.1.965"
    );
    assert_eq!(ModLoaderApi::forge_effective_id(true, None, "1.6.4-9.11.1.965"), "1.6.4-forge-9.11.1.965");
    assert_eq!(ModLoaderApi::forge_effective_id(false, Some("x".into()), "1.20.1-47.2.0"), "1.20.1-forge-47.2.0");
}

#[test]
fn clean_loader_version_drops_label() {
    assert_eq!(ModLoaderApi::clean_loader_version("0.15.7 (Stable)"), "0.15.7");
    assert_eq!(ModLoaderApi::clean_loader_version("47.2.0"), "47.2.0");
    assert_eq!(ModLoaderApi::clean_loader_version("   "), "   ");
}

#[test]
fn loader_urls() {
    assert_eq!(
        ModLoaderApi::fabric_versions_url("1.20.4"),
        "https://meta.fabricmc.net/v2/versions/loader/1.20.4"
    );
    assert_eq!(
        ModLoaderApi::fabric_profile_url("1.20.4", "0.15.7"),
        "https://meta.fabricmc.net/v2/versions/loader/1.20.4/0.15.7/profile/json"
    );
    assert_eq!(
        ModLoaderApi::forge_artifact_url("1.20.1-47.2.0", "installer.jar"),
        "https://maven.minecraftforge.net/net/minecraftforge/forge/1.20.1-47.2.0/forge-1.20.1-47.2.0-installer.jar"
    );
    assert_eq!(
        ModLoaderApi::forge_artifact_path("1.4.7-6.6.2.534", "universal.zip"),
        "net/minecraftforge/forge/1.4.7-6.6.2.534/forge-1.4.7-6.6.2.534-universal.zip"
    );
    assert_eq!(
        ModLoaderApi::neoforge_installer_url("20.4.237"),
        "https://maven.neoforged.net/releases/net/neoforged/neoforge/20.4.237/neoforge-20.4.237-installer.jar"
    );
    assert_eq!(ModLoaderApi::forge_promo_key("1.20.1", "latest"), "1.20.1-latest");
    assert_eq!(
        ModLoaderApi::legacy_forge_library_name("1.4.7-6.6.2.534"),
        "net.minecraftforge:forge:1.4.7-6.6.2.534:universal"
    );
}

#[test]
fn loader_names() {
    assert_eq!(ModLoaderType::Forge.as_str(), "forge");
    assert_eq!(ModLoaderType::NeoForge.as_str(), "neoforge");
    assert_eq!(ModLoaderType::Fabric.as_str(), "fabric");
}

#[test]
fn legacy_forge_profile_records_universal_zip() {
    let p = ModLoaderApi::legacy_forge_profile("1.4.7", "1.4.7-6.6.2.534", Some(&b"hello"[..]));
    assert_eq!(p.id, "1.4.7-forge-6.6.2.534");
    assert_eq!(p.inherits_from, "1.4.7");
    assert_eq!(p.main_class, "net.minecraft.client.Minecraft");
    assert_eq!(p.time, "2012-01-01T00:00:00+00:00");
    assert_eq!(p.version_type, "release");
    let l = p.library.expect("universal library");
    assert_eq!(l.name, "net.minecraftforge:forge:1.4.7-6.6.2.534:universal");
    assert_eq!(
        l.url,
        "https://maven.minecraftforge.net/net/minecraftforge/forge/1.4.7-6.6.2.534/forge-1.4.7-6.6.2.534-universal.zip"
    );
    assert_eq!(l.sha1, "aaf4c61ddcc5e8a2dabede0f3b482cd9aea9434d");
    assert_eq!(l.size, 5);
    let p = ModLoaderApi::legacy_forge_profile("1.3.2", "1.3.2-4.3.5.318", None);
    assert!(p.library.is_none());
    assert_eq!(p.minecraft_arguments, "${auth_player_name} ${auth_session} --gameDir ${game_directory} --assetsDir ${game_assets}");
}

fn zip_of(entries: &[(&str, &[u8])]) -> Vec<u8> {
    let mut w = zip::ZipWriter::new(std::io::Cursor::new(Vec::new()));
    for (name, data) in entries {
        w.start_file(*name, zip::write::SimpleFileOptions::default()).unwrap();
        std::io::Write::write_all(&mut w, data).unwrap();
    }
    w.finish().unwrap().into_inner()
}

fn old_profile(id: Option<&str>, install: Option<(&str, &str)>) -> InstallProfile {
    InstallProfile {
        version_info: Some(id.map(str::to_owned)),
        install: install.map(|(f, p)| (f.to_owned(), p.to_owned())),
    }
}

#[test]
fn installer_profile_is_read_from_the_installer() {
    let installer = zip_of(&[("install_profile.json", b"{\"versionInfo\":{}}"), ("other.txt", b"x")]);
    assert_eq!(ModLoaderApi::installer_profile_bytes(&installer), Some(b"{\"versionInfo\":{}}".to_vec()));
    assert_eq!(ModLoaderApi::installer_profile_bytes(&zip_of(&[("other.txt", b"x")])), None);
    assert_eq!(ModLoaderApi::installer_profile_bytes(b"not a zip"), None);
}

#[test]
fn client_zip_jar_prefers_the_top_level_jar() {
    let both = zip_of(&[("bin/minecraft.jar", b"bin"), ("minecraft.jar", b"top")]);
    assert_eq!(ModLoaderApi::client_zip_jar(&both), Some(b"top".to_vec()));
    let bin_only = zip_of(&[("bin/minecraft.jar", b"bin")]);
    assert_eq!(ModLoaderApi::client_zip_jar(&bin_only), Some(b"bin".to_vec()));
    assert_eq!(ModLoaderApi::client_zip_jar(&zip_of(&[("readme", b"r")])), None);
}

#[test]
fn installer_format_reads_version_info() {
    let current = InstallProfile { version_info: None, install: None };
    assert_eq!(ModLoaderApi::installer_format(&current), (false, None));
    let old = old_profile(Some("1.6.4-Forge9.11.1.965"), None);
    assert_eq!(ModLoaderApi::installer_format(&old), (true, Some("1.6.4-Forge9.11.1.965".to_string())));
    assert_eq!(ModLoaderApi::installer_format(&old_profile(None, None)), (true, None));
}

#[test]
fn old_format_profile_id_errors() {
    let current = InstallProfile { version_info: None, install: None };
    assert_eq!(ModLoaderApi::old_format_profile_id(&current), Err(OldFormatError::MissingVersionInfo));
    assert_eq!(ModLoaderApi::old_format_profile_id(&old_profile(None, None)), Err(OldFormatError::MissingId));
    assert_eq!(ModLoaderApi::old_format_profile_id(&old_profile(Some("x"), None)), Ok("x".to_string()));
    assert_eq!(OldFormatError::MissingVersionInfo.message(), "install_profile.json missing versionInfo");
    assert_eq!(OldFormatError::MissingId.message(), "versionInfo missing id");
}

#[test]
fn embedded_jar_goes_to_its_maven_path() {
    let installer = zip_of(&[("forge-universal.jar", b"JAR")]);
    let profile = old_profile(
        Some("1.6.4-Forge9.11.1.965"),
        Some(("forge-universal.jar", "net.minecraftforge:forge:1.6.4-9.11.1.965")),
    );
    assert_eq!(
        ModLoaderApi::embedded_jar(&installer, &profile),
        Some((
            "net/minecraftforge/forge/1.6.4-9.11.1.965/forge-1.6.4-9.11.1.965.jar".to_string(),
            b"JAR".to_vec()
        ))
    );
    let missing = old_profile(Some("x"), Some(("absent.jar", "a:b:1")));
    assert_eq!(ModLoaderApi::embedded_jar(&installer, &missing), None);
    assert_eq!(ModLoaderApi::embedded_jar(&installer, &old_profile(Some("x"), None)), None);
}

#[test]
fn forge_installer_plan_cases() {
    let installer = zip_of(&[("forge-universal.jar", b"JAR")]);
    let current = InstallProfile { version_info: None, install: None };
    let (id, plan) = ModLoaderApi::forge_installer_plan(&installer, &current, "1.20.1-47.2.0");
    assert_eq!(id, "1.20.1-forge-47.2.0");
    assert!(matches!(plan, ForgeInstallerPlan::RunInstaller));

    let old = old_profile(
        Some("1.6.4-Forge9.11.1.965"),
        Some(("forge-universal.jar", "net.minecraftforge:forge:1.6.4-9.11.1.965")),
    );
    let (id, plan) = ModLoaderApi::forge_installer_plan(&installer, &old, "1.6.4-9.11.1.965");
    assert_eq!(id, "1.6.4-Forge9.11.1.965");
    match plan {
        ForgeInstallerPlan::WriteProfile { id, jar } => {
            assert_eq!(id, "1.6.4-Forge9.11.1.965");
            assert_eq!(jar.map(|(_, b)| b), Some(b"JAR".to_vec()));
        }
        _ => panic!("expected the profile to be written"),
    }

    let (id, plan) = ModLoaderApi::forge_installer_plan(&installer, &old_profile(None, None), "1.6.4-9.11.1.965");
    assert_eq!(id, "1.6.4-forge-9.11.1.965");
    assert!(matches!(plan, ForgeInstallerPlan::Invalid(OldFormatError::MissingId)));
}
