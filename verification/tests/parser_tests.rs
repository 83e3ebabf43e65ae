use voxelruler::mc_parser::{
    evaluate_rules, get_mojang_os_arch, jna_compat_rel_path, jna_needs_bump,
    maven_coord_to_path, native_classifier_key, parse_java_major_version, resolve_argument, substitute_pieces,
};
use voxelruler::mc_types::{McLibrary, McOsRule, McRule, McRuleAction};
use voxelruler::paths::{HostOs, Platform};

fn platform(os: HostOs, arch: &str) -> Platform {
    Platform {
        os,
        arch: arch.into(),
        os_version: "10.0".into(),
        pointer_width_64: true,
        launcher_version: "0.1.0".into(),
    }
}

#[test]
fn test_parse_java_major_version() {
    assert_eq!(
        parse_java_major_version(r#"openjdk version "1.8.0_392""#),
        Some(8)
    );
    assert_eq!(
        parse_java_major_version(r#"openjdk version "17.0.2" 2022-01-18"#),
        Some(17)
    );
    assert_eq!(
        parse_java_major_version(r#"java version "21" 2023-09-19 LTS"#),
        Some(21)
    );
    assert_eq!(
        parse_java_major_version(r#"openjdk version "21.0.1+12-LTS""#),
        Some(21)
    );
    assert_eq!(parse_java_major_version("no version here"), None);
}

#[test]
fn test_jna_needs_bump() {
    assert_eq!(jna_needs_bump("net.java.dev.jna:jna:5.10.0"), Some("jna"));
    assert_eq!(
        jna_needs_bump("net.java.dev.jna:jna-platform:5.8.0"),
        Some("jna-platform")
    );
    assert_eq!(jna_needs_bump("net.java.dev.jna:jna:5.13.0"), None);
    assert_eq!(jna_needs_bump("net.java.dev.jna:jna:5.14.0"), None);
    assert_eq!(jna_needs_bump("net.java.dev.jna:jna:4.4.0"), None);
    assert_eq!(jna_needs_bump("net.java.dev.jna:jna:3.4.0"), None);
    assert_eq!(jna_needs_bump("net.java.dev.jna:platform:3.4.0"), None);
    assert_eq!(jna_needs_bump("org.lwjgl:lwjgl:3.3.3"), None);
}

#[test]
fn test_jna_compat_rel_path() {
    assert_eq!(
        jna_compat_rel_path("jna"),
        "net/java/dev/jna/jna/5.13.0/jna-5.13.0.jar"
    );
}

#[test]
fn test_parse_var_args() {
    let data = r#"${auth_player_name}"#;
    let vars = vec![("auth_player_name".to_string(), "TestPlayer".to_string())];
    let ans = resolve_argument(data, &vars);
    assert_eq!(ans, "TestPlayer");
}

#[test]
fn resolve_argument_keeps_text_and_blanks_unknown_vars() {
    let vars = vec![
        ("a".to_string(), "1".to_string()),
        ("b".to_string(), "2".to_string()),
    ];
    assert_eq!(resolve_argument("-Dx=${a}/${b}", &vars), "-Dx=1/2");
    assert_eq!(resolve_argument("${missing}", &vars), "");
    assert_eq!(resolve_argument("plain", &vars), "plain");
}

#[test]
fn test_get_mojang_os_arch() {
    assert_eq!(get_mojang_os_arch(&platform(HostOs::Windows, "x86_64")), "windows-x64");
    assert_eq!(get_mojang_os_arch(&platform(HostOs::MacOs, "aarch64")), "mac-os-arm64");
    assert_eq!(get_mojang_os_arch(&platform(HostOs::Linux, "x86_64")), "linux");
    assert_eq!(get_mojang_os_arch(&platform(HostOs::Linux, "riscv64")), "unknown");
}

#[test]
fn test_native_classifier_key_from_natives_map() {
    let lib = McLibrary {
        name: "org.lwjgl.lwjgl:lwjgl-platform:2.9.4".into(),
        url: None,
        downloads: None,
        rules: None,
        natives: Some(vec![(
            "linux".to_string(),
            "natives-linux-${arch}".to_string(),
        )]),
        extract: None,
    };
    let key = native_classifier_key(&lib, &platform(HostOs::Linux, "x86_64"))
        .expect("Should have natives key");
    assert_eq!(key, "natives-linux-64");
    assert_eq!(
        native_classifier_key(&lib, &platform(HostOs::Windows, "x86_64")),
        None
    );
}

#[test]
fn maven_coordinates_map_to_repository_paths() {
    assert_eq!(
        maven_coord_to_path("org.lwjgl:lwjgl:3.3.1").as_deref(),
        Some("org/lwjgl/lwjgl/3.3.1/lwjgl-3.3.1.jar")
    );
    assert_eq!(maven_coord_to_path("bad"), None);
}

#[test]
fn rules_allow_only_matching_os() {
    let rules = vec![
        McRule {
            action: McRuleAction::Allow,
            os: None,
            features: None,
        },
        McRule {
            action: McRuleAction::Disallow,
            os: Some(McOsRule {
                name: Some("osx".into()),
                arch: None,
                version: None,
                version_range: None,
            }),
            features: None,
        },
    ];
    assert!(evaluate_rules(&rules, &platform(HostOs::Linux, "x86_64")));
    assert!(!evaluate_rules(&rules, &platform(HostOs::MacOs, "aarch64")));
    assert!(evaluate_rules(&vec![], &platform(HostOs::Linux, "x86_64")));
}

#[test]
fn substitute_pieces_puts_values_between_pieces() {
    let vars = vec![("auth_player_name".to_string(), "Steve".to_string()), ("version_name".to_string(), "1.20.1".to_string())];
    let pieces = vec!["--user ".to_string(), " --version ".to_string(), "".to_string()];
    let keys = vec![Some("auth_player_name".to_string()), Some("version_name".to_string())];
    assert_eq!(substitute_pieces(&pieces, &keys, &vars), "--user Steve --version 1.20.1");
    let unknown = vec![Some("missing".to_string())];
    assert_eq!(substitute_pieces(&vec!["a".to_string(), "b".to_string()], &unknown, &vars), "ab");
    assert_eq!(substitute_pieces(&vec!["plain".to_string()], &vec![], &vars), "plain");
}
