use voxelruler::ipc::{deeplink_lines, deeplink_lines_of_text, first_deeplink_arg, sock_path_from};
use voxelruler::paths::HostOs;

#[test]
fn test_dispatch_ipc_bytes() {
    let data = b"voxelruler://auth?code=123\nsome other data\nvoxelruler://test";
    let links = deeplink_lines(data);
    assert_eq!(links, vec!["voxelruler://auth?code=123".to_string(), "voxelruler://test".to_string()]);
}

#[test]
fn test_sock_path_is_absolute() {
    let path = sock_path_from(HostOs::Linux, None, None, Some(1000));
    assert!(path.starts_with('/'));
    assert!(path.contains("voxelruler_ipc"));
    assert_eq!(path, "/tmp/voxelruler_ipc_1000.sock");
}

#[test]
fn sock_path_prefers_runtime_dir_and_tmpdir() {
    assert_eq!(
        sock_path_from(HostOs::Linux, None, Some("/run/user/1000".into()), Some(1000)),
        "/run/user/1000/voxelruler_ipc.sock"
    );
    assert_eq!(
        sock_path_from(HostOs::MacOs, Some("/var/folders/x".into()), None, Some(501)),
        "/var/folders/x/voxelruler_ipc.sock"
    );
    assert_eq!(
        sock_path_from(HostOs::MacOs, None, None, None),
        "/tmp/voxelruler_ipc.sock"
    );
    assert_eq!(
        sock_path_from(HostOs::Linux, None, None, None),
        "/tmp/voxelruler_ipc.sock"
    );
}

#[test]
fn non_utf8_data_gives_no_links() {
    assert!(deeplink_lines(&[0xff, 0xfe, b'\n']).is_empty());
}

#[test]
fn first_deeplink_skips_program_name() {
    let args = vec![
        "voxelruler://self".to_string(),
        "--flag".to_string(),
        "voxelruler://auth?code=1".to_string(),
        "voxelruler://other".to_string(),
    ];
    assert_eq!(first_deeplink_arg(&args).as_deref(), Some("voxelruler://auth?code=1"));
    assert_eq!(first_deeplink_arg(&vec!["prog".to_string()]), None);
}

#[test]
fn deeplink_lines_of_decoded_text() {
    assert_eq!(
        deeplink_lines_of_text("noise\nvoxelruler://a?x=1\r\nvoxelruler:/not\nvoxelruler://b"),
        vec!["voxelruler://a?x=1".to_string(), "voxelruler://b".to_string()]
    );
    assert!(deeplink_lines_of_text("").is_empty());
    assert!(deeplink_lines(&[0xff, 0xfe, b'\n']).is_empty());
}
