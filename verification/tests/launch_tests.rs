use voxelruler::launch::{classpath_separator, dedup_jvm_args, dedup_paths, LaunchContext};
use voxelruler::mc_types::{
    McArguments, McArgumentItem, McArtifactInfo, McJavaVersion, McLibrary, McLibraryDownloads,
    McSpecificVersionDetail,
};
use voxelruler::paths::{HostOs, Platform};

fn linux() -> Platform {
    Platform {
        os: HostOs::Linux,
        arch: "x86_64".into(),
        os_version: "6.1".into(),
        pointer_width_64: true,
        launcher_version: "0.1.0".into(),
    }
}

fn artifact_lib(name: &str, path: &str) -> McLibrary {
    McLibrary {
        name: name.into(),
        url: None,
        downloads: Some(McLibraryDownloads {
            artifact: Some(McArtifactInfo {
                path: Some(path.into()),
                sha1: String::new(),
                size: 0,
                url: String::new(),
            }),
            classifiers: None,
        }),
        rules: None,
        natives: None,
        extract: None,
    }
}

fn version(id: &str, major: i32) -> McSpecificVersionDetail {
    McSpecificVersionDetail {
        id: id.into(),
        version_type: "release".into(),
        time: String::new(),
        release_time: String::new(),
        compliance_level: None,
        minimum_launcher_version: None,
        main_class: "net.minecraft.client.main.Main".into(),
        java_version: Some(McJavaVersion {
            component: "java-runtime-delta".into(),
            major_version: major,
        }),
        downloads: None,
        asset_index: None,
        assets: None,
        logging: None,
        libraries: vec![
            artifact_lib("org.lwjgl:lwjgl:3.3.3", "org/lwjgl/lwjgl/3.3.3/lwjgl-3.3.3.jar"),
            artifact_lib("com.mojang:brigadier:1.0", "com/mojang/brigadier/1.0/brigadier-1.0.jar"),
        ],
        arguments: None,
        minecraft_arguments: None,
    }
}

fn ctx(version: McSpecificVersionDetail) -> LaunchContext {
    LaunchContext {
        version,
        java_path: "/usr/bin/java".into(),
        game_dir: "/game".into(),
        libraries_dir: "/libs".into(),
        assets_dir: "/assets".into(),
        natives_dir: "/natives".into(),
        versions_dir: "/versions".into(),
        auth_player_name: "Steve".into(),
        auth_uuid: "uuid-1234".into(),
        auth_access_token: "token-abcd".into(),
        client_id: String::new(),
        xuid: String::new(),
        xmx: "2G".into(),
        xms: "512M".into(),
        java_major_version: None,
        compat_override: None,
        platform: linux(),
    }
}

#[test]
fn legacy_command_has_heap_natives_classpath_and_game_args() {
    let mut v = version("1.12.2", 8);
    v.minecraft_arguments = Some(
        "--username ${auth_player_name} --version ${version_name} --gameDir ${game_directory} --userType ${user_type} --uuid ${auth_uuid} --userProperties ${user_properties}".into(),
    );
    let cmd = ctx(v).build_command(false);
    assert_eq!(cmd.program, "/usr/bin/java");
    assert_eq!(cmd.current_dir, "/game");
    let args = cmd.args;
    assert_eq!(args[0], "-Xmx2G");
    assert_eq!(args[1], "-Xms512M");
    assert!(args.contains(&"-Djava.library.path=/natives".to_string()));
    let cp_pos = args.iter().position(|a| a == "-cp").unwrap();
    assert_eq!(
        args[cp_pos + 1],
        "/libs/org/lwjgl/lwjgl/3.3.3/lwjgl-3.3.3.jar:/libs/com/mojang/brigadier/1.0/brigadier-1.0.jar:/versions/1.12.2/1.12.2.jar"
    );
    assert_eq!(args[cp_pos + 2], "net.minecraft.client.main.Main");
    let rest: Vec<&str> = args[cp_pos + 3..].iter().map(|s| s.as_str()).collect();
    assert_eq!(
        rest,
        vec![
            "--username", "Steve", "--version", "1.12.2", "--gameDir", "/game", "--userType",
            "msa", "--uuid", "uuid-1234", "--userProperties", "{}"
        ]
    );
}

#[test]
fn nosig_jar_is_used_when_present() {
    let c = ctx(version("1.0", 8));
    let cp = c.build_classpath(true);
    assert!(cp.ends_with("/versions/1.0/1.0-nosig.jar"));
}

fn modern(major: i32) -> LaunchContext {
    let mut v = version("1.21", 21);
    v.arguments = Some(McArguments {
        default_user_jvm: None,
        game: vec![
            McArgumentItem::Simple("--username".into()),
            McArgumentItem::Simple("${auth_player_name}".into()),
        ],
        jvm: vec![
            McArgumentItem::Simple("-Xmx1G".into()),
            McArgumentItem::Simple("-Djava.library.path=${natives_directory}".into()),
            McArgumentItem::Simple("-cp".into()),
            McArgumentItem::Simple("${classpath}".into()),
        ],
    });
    let mut c = ctx(v);
    c.java_major_version = Some(major);
    c
}

#[test]
fn java22_compat_flags_come_before_classpath() {
    let args = modern(22).build_command(false).args;
    let cp_pos = args.iter().position(|a| a == "-cp").unwrap();
    let n = args.iter().position(|a| a == "--enable-native-access=ALL-UNNAMED").unwrap();
    let u = args.iter().position(|a| a == "--sun-misc-unsafe-memory-access=allow").unwrap();
    assert!(n < cp_pos && u < cp_pos);
    assert!(args.contains(&"--add-modules=jdk.incubator.vector".to_string()));
    assert_eq!(args[args.len() - 2], "--username");
    assert_eq!(args[args.len() - 1], "Steve");
    assert_eq!(args[args.len() - 3], "net.minecraft.client.main.Main");
}

#[test]
fn java17_has_no_unsafe_memory_access_and_java8_no_compat() {
    let args = modern(17).build_command(false).args;
    assert!(args.contains(&"--enable-native-access=ALL-UNNAMED".to_string()));
    assert!(!args.contains(&"--sun-misc-unsafe-memory-access=allow".to_string()));
    let args = modern(8).build_command(false).args;
    assert!(!args.contains(&"--add-modules=jdk.incubator.vector".to_string()));
}

#[test]
fn launcher_heap_size_wins_over_version_default() {
    let args = modern(21).build_command(false).args;
    assert!(!args.contains(&"-Xmx1G".to_string()));
    assert_eq!(args.iter().filter(|a| a.starts_with("-Xmx")).count(), 1);
    assert!(args.contains(&"-Xmx2G".to_string()));
}

#[test]
fn dedup_jvm_args_keeps_last_of_each_group() {
    let args = vec![
        "-Xmx1G".to_string(),
        "-XX:+UseG1GC".to_string(),
        "-Dfoo=1".to_string(),
        "-XX:+UseZGC".to_string(),
        "-Xmx4G".to_string(),
    ];
    assert_eq!(
        dedup_jvm_args(&args),
        vec!["-Dfoo=1".to_string(), "-XX:+UseZGC".to_string(), "-Xmx4G".to_string()]
    );
}

#[test]
fn dedup_paths_keeps_first_occurrence() {
    let v = vec!["a".to_string(), "b".to_string(), "a".to_string(), "c".to_string(), "b".to_string()];
    assert_eq!(dedup_paths(v), vec!["a".to_string(), "b".to_string(), "c".to_string()]);
}

#[test]
fn classpath_separator_by_os() {
    assert_eq!(classpath_separator(HostOs::Windows), ";");
    assert_eq!(classpath_separator(HostOs::Linux), ":");
    assert_eq!(classpath_separator(HostOs::MacOs), ":");
}

#[test]
fn missing_classpath_files_lists_absent_entries() {
    let c = ctx(version("1.0", 8));
    let missing = c.missing_classpath_files(false, &vec![true, false, false]);
    assert_eq!(
        missing,
        vec![
            "/libs/com/mojang/brigadier/1.0/brigadier-1.0.jar".to_string(),
            "/versions/1.0/1.0.jar".to_string()
        ]
    );
}

#[test]
fn dedup_jvm_args_twice_is_once() {
    let args = vec![
        "-Xms1G".to_string(),
        "-XX:+UseSerialGC".to_string(),
        "-Dfoo=1".to_string(),
        "-Dfoo=1".to_string(),
        "-Xms2G".to_string(),
        "-XX:+UseParallelGC".to_string(),
        "-Xss1M".to_string(),
    ];
    let once = dedup_jvm_args(&args);
    assert_eq!(
        once,
        vec![
            "-Dfoo=1".to_string(),
            "-Dfoo=1".to_string(),
            "-Xms2G".to_string(),
            "-XX:+UseParallelGC".to_string(),
            "-Xss1M".to_string(),
        ]
    );
    assert_eq!(dedup_jvm_args(&once), once);
}
