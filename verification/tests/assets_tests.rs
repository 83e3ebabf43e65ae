use std::io::Write as _;
use voxelruler::instance_assets::{
    decode_log, entry_enabled, entry_is_shown, is_log_file, level_name_from_gzip, list_log_files,
    newest_screenshots, parse_servers, screenshot_ext, sync_step, tail_lines, toggle_target,
    validate_file_name, world_display_name, LinkState, SyncStep,
};
use voxelruler::nbt::{parse_nbt, NbtError, NbtTag};

fn put_str(buf: &mut Vec<u8>, s: &str) {
    buf.extend((s.len() as i16).to_be_bytes());
    buf.extend(s.as_bytes());
}

fn build_servers_dat(servers: &[(&str, &str)]) -> Vec<u8> {
    let mut b: Vec<u8> = Vec::new();
    b.push(10);
    put_str(&mut b, "");
    b.push(9);
    put_str(&mut b, "servers");
    b.push(10);
    b.extend((servers.len() as i32).to_be_bytes());
    for (name, ip) in servers {
        b.push(8);
        put_str(&mut b, "name");
        put_str(&mut b, name);
        b.push(8);
        put_str(&mut b, "ip");
        put_str(&mut b, ip);
        b.push(0);
    }
    b.push(0);
    b
}

fn gzip(data: &[u8]) -> Vec<u8> {
    let mut gz = flate2::write::GzEncoder::new(Vec::new(), flate2::Compression::default());
    gz.write_all(data).unwrap();
    gz.finish().unwrap()
}

#[test]
fn servers_dat_lists_servers_in_order() {
    let data = build_servers_dat(&[("Hypixel", "mc.hypixel.net"), ("Local", "localhost:25565")]);
    let servers = parse_servers(&data).unwrap();
    assert_eq!(servers.len(), 2);
    assert_eq!(servers[0].name, "Hypixel");
    assert_eq!(servers[0].ip, "mc.hypixel.net");
    assert_eq!(servers[1].name, "Local");
    assert_eq!(servers[1].ip, "localhost:25565");
}

#[test]
fn empty_server_list_and_truncated_data() {
    assert!(parse_servers(&build_servers_dat(&[])).unwrap().is_empty());
    let data = build_servers_dat(&[("A", "b")]);
    assert!(matches!(parse_servers(&data[..data.len() - 3]), Err(NbtError::UnexpectedEnd)));
    assert!(matches!(parse_servers(&[]), Err(NbtError::UnexpectedEnd)));
}

#[test]
fn unknown_tag_type_is_an_error() {
    assert!(matches!(parse_nbt(&[13, 0, 0]), Err(NbtError::RootNotCompound(13))));
    assert!(matches!(parse_nbt(&[10, 0, 0, 13, 0, 1, b'x']), Err(NbtError::UnknownType(13))));
}

#[test]
fn nbt_root_compound_is_read() {
    let mut b = vec![10u8];
    put_str(&mut b, "root");
    b.push(3);
    put_str(&mut b, "n");
    b.extend(7i32.to_be_bytes());
    b.push(0);
    let (name, tag) = parse_nbt(&b).unwrap();
    assert_eq!(name, "root");
    match tag.get("n") {
        Some(NbtTag::Int(7)) => {}
        other => panic!("unexpected {:?}", other),
    }
}

#[test]
fn level_name_read_from_gzipped_level_dat() {
    let mut inner: Vec<u8> = Vec::new();
    inner.push(10);
    inner.extend((0i16).to_be_bytes());
    inner.push(10);
    put_str(&mut inner, "Data");
    inner.push(8);
    put_str(&mut inner, "LevelName");
    put_str(&mut inner, "Minecraft");
    inner.push(0);
    inner.push(0);
    assert_eq!(level_name_from_gzip(&gzip(&inner)).as_deref(), Some("Minecraft"));
    assert_eq!(level_name_from_gzip(b"not gzip"), None);
    assert_eq!(world_display_name("world1", None), "world1");
    assert_eq!(world_display_name("world1", Some("My World".into())), "My World");
}

#[test]
fn toggling_adds_and_removes_suffix() {
    assert_eq!(toggle_target("sodium.jar").unwrap(), "sodium.jar.disabled");
    assert_eq!(toggle_target("sodium.jar.disabled").unwrap(), "sodium.jar");
    assert!(toggle_target("..").is_err());
    assert!(entry_enabled("sodium.jar"));
    assert!(!entry_enabled("lithium.jar.disabled"));
}

#[test]
fn file_names_that_leave_the_folder_are_refused() {
    assert!(validate_file_name("../evil").is_err());
    assert!(validate_file_name("a/b").is_err());
    assert!(validate_file_name("a\\b").is_err());
    assert!(validate_file_name("").is_err());
    assert!(validate_file_name(".").is_err());
    assert!(validate_file_name("ok.jar").is_ok());
}

#[test]
fn listing_filters_by_extension_and_hidden() {
    let exts = vec![".jar".to_string()];
    assert!(entry_is_shown("sodium.jar", false, &exts, false));
    assert!(entry_is_shown("lithium.JAR.disabled", false, &exts, false));
    assert!(!entry_is_shown("readme.txt", false, &exts, false));
    assert!(!entry_is_shown(".hidden.jar", false, &exts, false));
    assert!(!entry_is_shown("folder", true, &exts, false));
    assert!(entry_is_shown("folder", true, &exts, true));
}

#[test]
fn log_tail_and_listing_order() {
    let content: String = (1..=10).map(|i| format!("line {i}\n")).collect();
    assert_eq!(tail_lines(&content, 3), vec!["line 8", "line 9", "line 10"]);
    assert_eq!(tail_lines(&content, 100).len(), 10);
    let names = vec![
        "2026-06-09-1.log.gz".to_string(),
        "debug.txt".to_string(),
        "latest.log".to_string(),
        "2026-06-10-1.log.gz".to_string(),
        "crash.dmp".to_string(),
    ];
    assert_eq!(
        list_log_files(&names),
        vec![
            "latest.log".to_string(),
            "debug.txt".to_string(),
            "2026-06-10-1.log.gz".to_string(),
            "2026-06-09-1.log.gz".to_string(),
        ]
    );
    assert!(is_log_file("a.log"));
    assert!(!is_log_file("a.dmp"));
}

#[test]
fn gzipped_logs_are_decoded() {
    let content = "line 1\nline 2\n";
    assert_eq!(decode_log("x.log.gz", gzip(content.as_bytes())).as_deref(), Some(content));
    assert_eq!(decode_log("x.log", content.as_bytes().to_vec()).as_deref(), Some(content));
    assert_eq!(decode_log("x.log.gz", b"plain".to_vec()), None);
}

#[test]
fn sync_steps_never_delete_content() {
    assert_eq!(sync_step(true, false, LinkState::NonEmptyDir), SyncStep::Skip);
    assert_eq!(sync_step(false, false, LinkState::Missing), SyncStep::NotAFolder);
    assert_eq!(sync_step(false, true, LinkState::Missing), SyncStep::Create);
    assert_eq!(sync_step(false, true, LinkState::LinksToTarget), SyncStep::Keep);
    assert_eq!(sync_step(false, true, LinkState::OtherLink), SyncStep::ReplaceLink);
    assert_eq!(sync_step(false, true, LinkState::EmptyDir), SyncStep::ReplaceEmptyDir);
    assert_eq!(sync_step(false, true, LinkState::NonEmptyDir), SyncStep::Refuse);
    assert_eq!(sync_step(false, true, LinkState::File), SyncStep::ReplaceFile);
}

#[test]
fn screenshots_newest_first_limited() {
    assert!(screenshot_ext("PNG"));
    assert!(screenshot_ext("jpg"));
    assert!(!screenshot_ext("txt"));
    let files = vec![
        ("a.png".to_string(), 10u128),
        ("b.png".to_string(), 30u128),
        ("c.png".to_string(), 20u128),
    ];
    assert_eq!(newest_screenshots(files, 2), vec!["b.png".to_string(), "c.png".to_string()]);
}

#[test]
fn test_validate_file_name_rejects_traversal() {
    assert!(validate_file_name("../evil").is_err());
    assert!(validate_file_name("a/b").is_err());
    assert!(toggle_target("..").is_err());
}

#[test]
fn level_name_survives_a_cut_gzip_trailer() {
    let mut inner: Vec<u8> = Vec::new();
    inner.push(10);
    inner.extend((0i16).to_be_bytes());
    inner.push(10);
    put_str(&mut inner, "Data");
    inner.push(8);
    put_str(&mut inner, "LevelName");
    put_str(&mut inner, "Cut World");
    inner.push(0);
    inner.push(0);
    let full = gzip(&inner);
    let cut = &full[..full.len() - 4];
    assert_eq!(level_name_from_gzip(cut).as_deref(), Some("Cut World"));
}

#[test]
fn gzipped_log_with_a_cut_trailer_is_not_decoded() {
    let full = gzip(b"line one\nline two\n");
    let cut = full[..full.len() - 4].to_vec();
    assert_eq!(decode_log("x.log.gz", cut), None);
}
