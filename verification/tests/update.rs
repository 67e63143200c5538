use sort_it_now::update::{
    bundle_directory, check_version, extended_search_path, search_path_contains, checksum_asset_names, checksum_matches, classify_response,
    exceeds_limit, expected_asset_names, find_checksum_asset, find_release_asset, format_wait,
    github_token, http_timeout, is_rate_limit_response, max_download_size_bytes,
    parse_checksum_file, rate_limit_reset_duration, sha256_hex, user_agent, version_status,
    ReleaseAsset, ReleaseTarget, ResponseAction, VersionStatus,
};

fn asset(name: &str) -> ReleaseAsset {
    ReleaseAsset { name: name.to_string(), browser_download_url: format!("https://x/{}", name) }
}

#[test]
fn asset_names_with_and_without_the_leading_v() {
    assert_eq!(
        expected_asset_names("v1.2.3", ReleaseTarget::LinuxX86_64),
        vec!["sort-it-now-v1.2.3-linux-x86_64.tar.gz", "sort-it-now-1.2.3-linux-x86_64.tar.gz"]
    );
    assert_eq!(
        expected_asset_names("1.2.3", ReleaseTarget::WindowsX86_64),
        vec!["sort-it-now-1.2.3-windows-x86_64.zip", "sort-it-now-v1.2.3-windows-x86_64.zip"]
    );
    assert_eq!(
        expected_asset_names("", ReleaseTarget::MacosArm64),
        vec!["sort-it-now--macos-arm64.tar.gz"]
    );
    assert_eq!(
        expected_asset_names("vv", ReleaseTarget::MacosX86_64),
        vec!["sort-it-now-vv-macos-x86_64.tar.gz", "sort-it-now--macos-x86_64.tar.gz"]
    );
}

#[test]
fn checksum_names_and_assets() {
    assert_eq!(
        checksum_asset_names("a.tar.gz"),
        vec!["a.tar.gz.sha256", "a.tar.gz.sha256sum", "a.tar.gz.sha256.txt"]
    );
    let assets = vec![asset("a.tar.gz"), asset("a.tar.gz.sha256.txt"), asset("a.tar.gz.sha256")];
    assert_eq!(find_checksum_asset(&assets, "a.tar.gz").unwrap().name, "a.tar.gz.sha256.txt");
    assert!(find_checksum_asset(&assets, "b.tar.gz").is_none());
    let names = vec!["zzz".to_string(), "a.tar.gz".to_string()];
    assert_eq!(find_release_asset(&assets, &names).unwrap().name, "a.tar.gz");
    assert!(find_release_asset(&assets, &Vec::new()).is_none());
}

#[test]
fn checksum_files() {
    let hash = "0123456789abcdef0123456789abcdef0123456789abcdef0123456789ABCDEF";
    let lower = hash.to_ascii_lowercase();
    assert_eq!(parse_checksum_file(hash), Some(lower.clone()));
    assert_eq!(
        parse_checksum_file(&format!("# comment\r\n\r\n  {}  sort-it-now.tar.gz\r\n", hash)),
        Some(lower.clone())
    );
    assert_eq!(parse_checksum_file(&format!("short\n{}\n", hash)), Some(lower.clone()));
    assert_eq!(parse_checksum_file(&format!("#{}\n", hash)), None);
    assert_eq!(parse_checksum_file(&format!("{}0\n", hash)), None);
    assert_eq!(parse_checksum_file(&format!("{}\n", &hash[1..])), None);
    assert_eq!(parse_checksum_file(&format!("g{}\n", &hash[1..])), None);
    assert_eq!(parse_checksum_file(""), None);
    assert_eq!(parse_checksum_file("\n\n"), None);
    assert_eq!(parse_checksum_file(&format!("\u{a0}{}\u{2003}x", hash)), Some(lower));
}

#[test]
fn waits_as_text() {
    assert_eq!(format_wait(0), "0s");
    assert_eq!(format_wait(59), "59s");
    assert_eq!(format_wait(60), "1m");
    assert_eq!(format_wait(61), "1m 1s");
    assert_eq!(format_wait(3600), "1h");
    assert_eq!(format_wait(3601), "1h 1s");
    assert_eq!(format_wait(3723), "1h 2m 3s");
    assert_eq!(format_wait(360000), "100h");
}

#[test]
fn limits_and_timeouts() {
    assert_eq!(max_download_size_bytes(None), Some(200 * 1024 * 1024));
    assert_eq!(max_download_size_bytes(Some("")), Some(200 * 1024 * 1024));
    assert_eq!(max_download_size_bytes(Some(" 5 ")), Some(5 * 1024 * 1024));
    assert_eq!(max_download_size_bytes(Some("0")), None);
    assert_eq!(max_download_size_bytes(Some("five")), Some(200 * 1024 * 1024));
    assert_eq!(max_download_size_bytes(Some("18446744073709551615")), Some(u64::MAX));
    assert_eq!(http_timeout(None), 30);
    assert_eq!(http_timeout(Some(" 12 ")), 12);
    assert_eq!(http_timeout(Some("0")), 30);
    assert_eq!(http_timeout(Some("x")), 30);
    assert!(exceeds_limit(Some(10), 11));
    assert!(!exceeds_limit(Some(10), 10));
    assert!(!exceeds_limit(None, u64::MAX));
}

#[test]
fn tokens_rate_limits_and_names() {
    assert_eq!(github_token(Some(" a "), Some("b")), Some("a".to_string()));
    assert_eq!(github_token(Some("  "), Some("b")), Some("b".to_string()));
    assert_eq!(github_token(None, None), None);
    assert!(is_rate_limit_response(Some("0")));
    assert!(!is_rate_limit_response(Some("1")));
    assert!(!is_rate_limit_response(Some(" 0")));
    assert!(!is_rate_limit_response(None));
    assert_eq!(rate_limit_reset_duration(Some("100"), 40), Some(60));
    assert_eq!(rate_limit_reset_duration(Some("100"), 100), None);
    assert_eq!(rate_limit_reset_duration(Some("100"), 140), None);
    assert_eq!(rate_limit_reset_duration(Some("soon"), 140), None);
    assert_eq!(rate_limit_reset_duration(None, 0), None);
    assert_eq!(bundle_directory("v1.0.0", ReleaseTarget::LinuxX86_64), "sort-it-now-v1.0.0-linux-x86_64");
    assert_eq!(user_agent("1.0.0", "linux", "x86_64"), "sort-it-now/1.0.0 (linux; x86_64)");
    assert_eq!(classify_response(403, true), ResponseAction::RateLimited);
    assert_eq!(classify_response(403, false), ResponseAction::Forbidden);
    assert_eq!(classify_response(401, true), ResponseAction::Unauthorized);
    assert_eq!(classify_response(404, false), ResponseAction::NotFound);
    assert_eq!(classify_response(200, false), ResponseAction::Proceed);
}

#[test]
fn versions_are_compared_as_semantic_versions() {
    assert_eq!(check_version("1.0.0", "v1.2.0"), VersionStatus::UpdateAvailable);
    assert_eq!(check_version("1.2.0", "v1.2.0"), VersionStatus::UpToDate);
    assert_eq!(check_version("1.10.0", "1.9.9"), VersionStatus::UpToDate);
    assert_eq!(check_version("1.0.0-rc.1", "v1.0.0"), VersionStatus::UpdateAvailable);
    assert_eq!(check_version("1.0.0", "latest"), VersionStatus::Unknown);
    assert_eq!(check_version("one", "v1.0.0"), VersionStatus::Unknown);
    assert_eq!(version_status(true, true, true), VersionStatus::UpdateAvailable);
    assert_eq!(version_status(true, true, false), VersionStatus::UpToDate);
    assert_eq!(version_status(false, true, true), VersionStatus::Unknown);
    assert_eq!(version_status(true, false, true), VersionStatus::Unknown);
}

#[test]
fn checksums_are_sha256_in_lower_case_hexadecimal() {
    assert_eq!(
        sha256_hex(b"abc"),
        "ba7816bf8f01cfea414140de5dae2223b00361a396177a9cb410ff61f20015ad"
    );
    assert_eq!(
        sha256_hex(b""),
        "e3b0c44298fc1c149afbf4c8996fb92427ae41e4649b934ca495991b7852b855"
    );
    assert!(checksum_matches(
        b"abc",
        "ba7816bf8f01cfea414140de5dae2223b00361a396177a9cb410ff61f20015ad"
    ));
    assert!(!checksum_matches(
        b"abd",
        "ba7816bf8f01cfea414140de5dae2223b00361a396177a9cb410ff61f20015ad"
    ));
    assert!(!checksum_matches(
        b"abc",
        "BA7816BF8F01CFEA414140DE5DAE2223B00361A396177A9CB410FF61F20015AD"
    ));
}

#[test]
fn search_paths_are_extended_once() {
    assert!(search_path_contains("C:\\a; c:\\Tools ;C:\\b", "C:\\tools"));
    assert!(!search_path_contains("C:\\a;C:\\b", "C:\\tools"));
    assert!(search_path_contains("", ""));
    assert!(search_path_contains("C:\\a;", ""));
    assert!(!search_path_contains("C:\\a", ""));
    assert_eq!(extended_search_path("C:\\a;C:\\Tools", "c:\\tools"), None);
    assert_eq!(extended_search_path("C:\\a", "C:\\tools"), Some("C:\\a;C:\\tools".to_string()));
    assert_eq!(extended_search_path("  ", "C:\\tools"), Some("C:\\tools".to_string()));
    assert_eq!(extended_search_path("", "C:\\tools"), Some("C:\\tools".to_string()));
}
