use voxelruler::mc_types::{McAssetObject, McJavaVersion, McLibrary, McSpecificVersionDetail};

#[test]
fn test_asset_download_url_uses_first_two_chars_as_prefix() {
    let obj = McAssetObject {
        hash: "aaf4c61ddcc5e8a2dabede0f3b482cd9aea9434d".into(),
        size: 5,
    };
    let url = obj.download_url();
    assert!(url.starts_with("https://resources.download.minecraft.net/aa/"));
    assert!(url.ends_with("aaf4c61ddcc5e8a2dabede0f3b482cd9aea9434d"));
}

#[test]
fn test_asset_download_url_full() {
    let hash = "da39a3ee5e6b4b0d3255bfef95601890afd80709";
    let obj = McAssetObject {
        hash: hash.into(),
        size: 0,
    };
    assert_eq!(
        obj.download_url(),
        format!("https://resources.download.minecraft.net/da/{}", hash)
    );
}

fn bare_version(id: &str, main_class: &str) -> McSpecificVersionDetail {
    McSpecificVersionDetail {
        id: id.into(),
        version_type: "release".into(),
        time: "".into(),
        release_time: "".into(),
        compliance_level: None,
        minimum_launcher_version: None,
        main_class: main_class.into(),
        java_version: None,
        downloads: None,
        asset_index: None,
        assets: None,
        logging: None,
        libraries: vec![],
        arguments: None,
        minecraft_arguments: None,
    }
}

fn lib(name: &str) -> McLibrary {
    McLibrary {
        name: name.into(),
        downloads: None,
        natives: None,
        extract: None,
        rules: None,
        url: None,
    }
}

#[test]
fn test_merge_takes_id_and_main_class_from_modded() {
    let vanilla = bare_version("1.21.1", "net.minecraft.client.main.Main");
    let modded = bare_version(
        "1.21.1-forge-51.0.0",
        "cpw.mods.bootstraplauncher.BootstrapLauncher",
    );
    let merged = vanilla.merge(modded);
    assert_eq!(merged.id, "1.21.1-forge-51.0.0");
    assert_eq!(
        merged.main_class,
        "cpw.mods.bootstraplauncher.BootstrapLauncher"
    );
}

#[test]
fn test_merge_modded_libs_come_before_vanilla_libs() {
    let mut vanilla = bare_version("1.21.1", "Main");
    vanilla.libraries = vec![lib("com.mojang:vanilla:1.0")];

    let mut modded = bare_version("1.21.1-forge", "ForgeMain");
    modded.libraries = vec![lib("net.minecraftforge:forge:51.0")];

    let merged = vanilla.merge(modded);
    assert_eq!(merged.libraries.len(), 2);
    assert_eq!(merged.libraries[0].name, "net.minecraftforge:forge:51.0");
    assert_eq!(merged.libraries[1].name, "com.mojang:vanilla:1.0");
}

#[test]
fn test_merge_modded_java_version_overrides_vanilla() {
    let mut vanilla = bare_version("1.21.1", "Main");
    vanilla.java_version = Some(McJavaVersion {
        component: "java-runtime-gamma".into(),
        major_version: 21,
    });

    let mut modded = bare_version("1.21.1-forge", "ForgeMain");
    modded.java_version = Some(McJavaVersion {
        component: "java-runtime-delta".into(),
        major_version: 17,
    });

    let merged = vanilla.merge(modded);
    let jv = merged.java_version.unwrap();
    assert_eq!(jv.component, "java-runtime-delta");
    assert_eq!(jv.major_version, 17);
}

#[test]
fn test_merge_vanilla_java_version_kept_when_modded_has_none() {
    let mut vanilla = bare_version("1.21.1", "Main");
    vanilla.java_version = Some(McJavaVersion {
        component: "java-runtime-gamma".into(),
        major_version: 21,
    });
    let modded = bare_version("1.21.1-forge", "ForgeMain");

    let merged = vanilla.merge(modded);
    assert_eq!(merged.java_version.unwrap().major_version, 21);
}

#[test]
fn test_merge_minecraft_arguments_overridden_by_modded() {
    let mut vanilla = bare_version("1.7.10", "Main");
    vanilla.minecraft_arguments = Some("--username ${auth_player_name}".into());

    let mut modded = bare_version("1.7.10-forge", "ForgeMain");
    modded.minecraft_arguments = Some(
        "--username ${auth_player_name} --tweakClass cpw.mods.fml.common.launcher.FMLTweaker"
            .into(),
    );

    let merged = vanilla.merge(modded);
    assert!(merged.minecraft_arguments.unwrap().contains("tweakClass"));
}

#[test]
fn test_merge_empty_into_empty_produces_valid_result() {
    let vanilla = bare_version("1.0", "Main");
    let modded = bare_version("1.0-forge", "ForgeMain");
    let merged = vanilla.merge(modded);
    assert!(merged.libraries.is_empty());
    assert!(merged.arguments.is_none());
}

#[test]
fn merge_keeps_vanilla_minecraft_arguments_when_modded_has_none() {
    let mut vanilla = bare_version("1.7.10", "Main");
    vanilla.minecraft_arguments = Some("--username ${auth_player_name}".into());
    let modded = bare_version("1.7.10-forge", "ForgeMain");
    let merged = vanilla.merge(modded);
    assert_eq!(
        merged.minecraft_arguments.as_deref(),
        Some("--username ${auth_player_name}")
    );
}

#[test]
fn asset_url_of_two_byte_leading_char() {
    let obj = McAssetObject {
        hash: "éabc".into(),
        size: 1,
    };
    assert_eq!(
        obj.download_url(),
        "https://resources.download.minecraft.net/é/éabc"
    );
}
