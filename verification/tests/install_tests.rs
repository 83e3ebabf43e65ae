use voxelruler::mc_install::{
    download_step, DownloadAction, DownloadOutcome, asset_index_path, asset_jobs, fallback_urls, hex_lower, is_signature_entry, needs_download,
    no_asset_index_message, retry_delay_ms, sha1_hex, sha1_matches, should_skip_native_entry,
};
use voxelruler::mc_types::{McAssetObject, McAssetObjects};

#[test]
fn test_should_skip_native_entry() {
    assert!(should_skip_native_entry("META-INF/MANIFEST.MF", &vec![]));
    assert!(should_skip_native_entry("foo/bar.txt", &vec!["foo/".into()]));
    assert!(!should_skip_native_entry(
        "liblwjgl.dylib",
        &vec!["META-INF/".into()]
    ));
}

#[test]
fn test_sha1_hex_empty_string() {
    assert_eq!(sha1_hex(b""), "da39a3ee5e6b4b0d3255bfef95601890afd80709");
}

#[test]
fn test_sha1_hex_known_value() {
    assert_eq!(
        sha1_hex(b"hello"),
        "aaf4c61ddcc5e8a2dabede0f3b482cd9aea9434d"
    );
}

#[test]
fn hex_lower_writes_two_digits_per_byte() {
    assert_eq!(hex_lower(&[0x00, 0x0f, 0xa0, 0xff]), "000fa0ff");
    assert_eq!(hex_lower(&[]), "");
}

#[test]
fn sha1_matches_compares_hex_digest() {
    assert!(sha1_matches(b"hello", "aaf4c61ddcc5e8a2dabede0f3b482cd9aea9434d"));
    assert!(!sha1_matches(b"hello!", "aaf4c61ddcc5e8a2dabede0f3b482cd9aea9434d"));
}

#[test]
fn download_needed_unless_present_with_expected_size() {
    assert!(!needs_download(true, 10, 10));
    assert!(needs_download(true, 9, 10));
    assert!(needs_download(false, 10, 10));
}

#[test]
fn retry_delay_doubles() {
    assert_eq!(retry_delay_ms(1), 1000);
    assert_eq!(retry_delay_ms(2), 2000);
    assert_eq!(retry_delay_ms(4), 8000);
}

#[test]
fn signature_entries_are_recognised() {
    assert!(is_signature_entry("META-INF/MOJANGCS.SF"));
    assert!(is_signature_entry("META-INF/MOJANGCS.RSA"));
    assert!(!is_signature_entry("META-INF/MANIFEST.MF"));
    assert!(!is_signature_entry("net/minecraft/X.SF"));
}

#[test]
fn fallback_urls_try_named_repo_first() {
    let urls = fallback_urls(&Some("https://maven.example.org".into()), "a/b/c.jar");
    assert_eq!(
        urls,
        vec![
            "https://maven.example.org/a/b/c.jar".to_string(),
            "https://maven.minecraftforge.net/a/b/c.jar".to_string(),
            "https://libraries.minecraft.net/a/b/c.jar".to_string(),
            "https://repo1.maven.org/maven2/a/b/c.jar".to_string(),
        ]
    );
    assert_eq!(fallback_urls(&Some(String::new()), "x.jar").len(), 3);
    assert_eq!(fallback_urls(&None, "x.jar").len(), 3);
}

#[test]
fn asset_index_path_and_missing_message() {
    assert_eq!(asset_index_path("/assets", "17"), "/assets/indexes/17.json");
    assert_eq!(no_asset_index_message("1.0"), "Version 1.0 has no asset_index");
}

#[test]
fn asset_jobs_use_hash_prefix_directories() {
    let objs = McAssetObjects {
        objects: vec![(
            "minecraft/sounds/a.ogg".to_string(),
            McAssetObject {
                hash: "aaf4c61ddcc5e8a2dabede0f3b482cd9aea9434d".into(),
                size: 5,
            },
        )],
    };
    let jobs = asset_jobs(&objs, "/assets/objects");
    assert_eq!(jobs.len(), 1);
    assert_eq!(
        jobs[0].dest,
        "/assets/objects/aa/aaf4c61ddcc5e8a2dabede0f3b482cd9aea9434d"
    );
    assert_eq!(
        jobs[0].url,
        "https://resources.download.minecraft.net/aa/aaf4c61ddcc5e8a2dabede0f3b482cd9aea9434d"
    );
    assert_eq!(jobs[0].size, 5);
    assert_eq!(jobs[0].sha1, "aaf4c61ddcc5e8a2dabede0f3b482cd9aea9434d");
}

#[test]
fn download_step_retries_failed_transfers_only() {
    assert_eq!(download_step(0, DownloadOutcome::Failed), DownloadAction::RetryAfter(1000));
    assert_eq!(download_step(1, DownloadOutcome::Failed), DownloadAction::RetryAfter(2000));
    assert_eq!(download_step(3, DownloadOutcome::Failed), DownloadAction::RetryAfter(8000));
    assert_eq!(download_step(4, DownloadOutcome::Failed), DownloadAction::Fail);
    assert_eq!(download_step(0, DownloadOutcome::Saved), DownloadAction::Done);
    assert_eq!(download_step(2, DownloadOutcome::Saved), DownloadAction::Done);
    assert_eq!(download_step(0, DownloadOutcome::ChecksumMismatch), DownloadAction::Fail);
}
