use sunshine_control_panel::text::{parse_number, split_bytes, strip_leading};
use sunshine_control_panel::update::{
    build_api_urls, build_download_urls, build_install_command, build_jsdelivr_url,
    build_proxy_url, compare_versions, evaluate_releases, find_best_download_asset,
    find_latest_release, is_new_version_available, is_progress_reported, is_windows_package,
    normalize_version, parse_github_release_download_url, parse_version,
    progress_percent, GitHubAsset, GitHubRelease, UpdateCheckError, UpdatePreferences,
    MAX_RELEASES_TO_CHECK, UPDATE_CHECK_INTERVAL,
};

fn asset(name: &str, url: &str) -> GitHubAsset {
    GitHubAsset { name: name.as_bytes().to_vec(), browser_download_url: url.as_bytes().to_vec() }
}

fn release(tag: &str, draft: bool, prerelease: bool, assets: Vec<GitHubAsset>) -> GitHubRelease {
    GitHubRelease {
        tag_name: tag.as_bytes().to_vec(),
        body: format!("notes of {}", tag).into_bytes(),
        assets,
        html_url: format!("https://github.com/o/r/releases/tag/{}", tag).into_bytes(),
        prerelease,
        draft,
        published_at: None,
    }
}

#[test]
fn version_prefix_is_stripped_small_letters_first() {
    assert_eq!(normalize_version(b"v1.2.3"), b"1.2.3");
    assert_eq!(normalize_version(b"V1.2.3"), b"1.2.3");
    assert_eq!(normalize_version(b"vvV1"), b"1");
    assert_eq!(normalize_version(b"Vv1"), b"v1");
    assert_eq!(normalize_version(b"1.0v"), b"1.0v");
    assert_eq!(normalize_version(b""), b"");
    for text in ["v1", "V1", "vV1", "Vv1", "vvVVv1", ""] {
        let expected = text.trim_start_matches('v').trim_start_matches('V');
        assert_eq!(normalize_version(text.as_bytes()), expected.as_bytes());
    }
}

#[test]
fn numbers_are_read_as_u32_parse_reads_them() {
    for text in [
        "0", "7", "007", "+5", "+", "", "-1", "4294967295", "4294967296", "99999999999999999999",
        "1a", "a1", " 1", "1 ", "++1", "+-1", "１",
    ] {
        let expected = text.parse::<u32>().ok();
        assert_eq!(parse_number(text.as_bytes(), 0xFFFF_FFFF), expected, "{:?}", text);
    }
    for text in ["65535", "65536", "0", "+80", "x"] {
        let expected = text.parse::<u16>().ok().map(u32::from);
        assert_eq!(parse_number(text.as_bytes(), 65535), expected, "{:?}", text);
    }
}

#[test]
fn text_is_split_as_std_splits_it() {
    for text in ["", ".", "a.b", "a..b", ".a.", "abc", "1.2.3."] {
        let expected: Vec<Vec<u8>> = text.split('.').map(|piece| piece.as_bytes().to_vec()).collect();
        assert_eq!(split_bytes(text.as_bytes(), b'.'), expected, "{:?}", text);
    }
    for text in ["https://a", "https://https://a", "http://a", "https:/", ""] {
        let expected = text.trim_start_matches("https://");
        assert_eq!(strip_leading(text.as_bytes(), b"https://"), expected.as_bytes());
    }
    assert_eq!(strip_leading(b"aaa", b""), b"aaa");
}

#[test]
fn version_numbers_leave_out_what_is_no_number() {
    assert_eq!(parse_version(b"v1.2.3"), vec![1, 2, 3]);
    assert_eq!(parse_version("2025.1116.1.杂鱼".as_bytes()), vec![2025, 1116, 1]);
    assert_eq!(parse_version(b"1.x.3"), vec![1, 3]);
    assert_eq!(parse_version(b"1..+2"), vec![1, 2]);
    assert_eq!(parse_version(b"4294967296.1"), vec![1]);
    assert_eq!(parse_version(b""), Vec::<u32>::new());
    assert_eq!(parse_version(b"Unknown"), Vec::<u32>::new());
}

#[test]
fn newer_version_is_decided_at_first_difference() {
    assert!(is_new_version_available(b"1.2.3", b"1.2.4"));
    assert!(is_new_version_available(b"1.2.3", b"v1.3"));
    assert!(is_new_version_available(b"1.2", b"1.2.0.1"));
    assert!(is_new_version_available(b"0.0.0", b"V0.0.1"));
    assert!(is_new_version_available(b"Unknown", b"0.1"));
    assert!(is_new_version_available("2025.1116.1.杂鱼".as_bytes(), "2025.1201.0.杂鱼".as_bytes()));
    assert!(!is_new_version_available(b"1.2.3", b"1.2.3"));
    assert!(!is_new_version_available(b"1.2.3", b"1.2"));
    assert!(!is_new_version_available(b"1.2.0", b"1.2"));
    assert!(!is_new_version_available(b"1.10", b"1.9"));
    assert!(!is_new_version_available(b"2.0", b"1.99.99"));
    assert!(!is_new_version_available(b"", b""));
    assert!(!is_new_version_available(b"1", b"Unknown"));
    assert!(compare_versions(&vec![1, 0], &vec![1, 0, 0, 1]));
    assert!(!compare_versions(&vec![1, 0, 0, 1], &vec![1, 0]));
    assert!(!compare_versions(&vec![], &vec![0, 0]));
    assert!(compare_versions(&vec![u32::MAX - 1], &vec![u32::MAX]));
}

#[test]
fn best_asset_prefers_windows_installers() {
    let assets = vec![
        asset("sunshine-linux.deb", "https://e/1"),
        asset("Sunshine-WINDOWS-portable.zip", "https://e/2"),
        asset("setup.exe", "https://e/3"),
    ];
    assert_eq!(
        find_best_download_asset(&assets),
        (Some(b"https://e/2".to_vec()), Some(b"Sunshine-WINDOWS-portable.zip".to_vec()))
    );
    let by_suffix = vec![asset("a.tar.gz", "u1"), asset("Setup.MSI", "u2")];
    assert_eq!(find_best_download_asset(&by_suffix), (Some(b"u2".to_vec()), Some(b"Setup.MSI".to_vec())));
    let none = vec![asset("a.tar.gz", "u1"), asset("b.exe.sig", "u2")];
    assert_eq!(find_best_download_asset(&none), (Some(b"u1".to_vec()), Some(b"a.tar.gz".to_vec())));
    assert_eq!(find_best_download_asset(&Vec::new()), (None, None));
    assert!(is_windows_package(&asset("X.EXE", "")));
    assert!(is_windows_package(&asset("my-Windows-build", "")));
    assert!(!is_windows_package(&asset("exe", "")));
    assert!(!is_windows_package(&asset("window.zip", "")));
}

#[test]
fn mirror_url_drops_the_scheme() {
    assert_eq!(
        build_proxy_url(b"https://mirror.ghproxy.com/", b"https://api.github.com/repos/a/b"),
        b"https://mirror.ghproxy.com/api.github.com/repos/a/b".to_vec()
    );
    assert_eq!(
        build_proxy_url(b"https://mirror.example", b"https://api.github.com/x"),
        b"https://mirror.example/api.github.com/x".to_vec()
    );
    assert_eq!(build_proxy_url(b"", b"http://a"), b"/http://a".to_vec());
    assert_eq!(build_proxy_url(b"p/", b"https://https://a"), b"p/a".to_vec());
    assert_eq!(
        build_api_urls(b"https://api.github.com/repos/qiin2333/sunshine/releases"),
        vec![
            b"https://api.github.com/repos/qiin2333/sunshine/releases".to_vec(),
            b"https://ghapi.hackhub.cn/api.github.com/repos/qiin2333/sunshine/releases".to_vec(),
            b"https://mirror.ghproxy.com/api.github.com/repos/qiin2333/sunshine/releases".to_vec(),
        ]
    );
}

#[test]
fn latest_release_skips_drafts_and_looks_at_ten() {
    let releases = vec![
        release("v3", true, false, Vec::new()),
        release("v2-beta", false, true, Vec::new()),
        release("v1", false, false, Vec::new()),
    ];
    assert_eq!(find_latest_release(&releases, true), Some(1));
    assert_eq!(find_latest_release(&releases, false), Some(2));
    assert_eq!(find_latest_release(&Vec::new(), true), None);
    let mut many: Vec<GitHubRelease> =
        (0..MAX_RELEASES_TO_CHECK).map(|_| release("d", true, false, Vec::new())).collect();
    many.push(release("v1", false, false, Vec::new()));
    assert_eq!(find_latest_release(&many, true), None);
    many.remove(0);
    assert_eq!(find_latest_release(&many, true), Some(9));
}

#[test]
fn release_download_url_is_taken_apart() {
    let parts = parse_github_release_download_url(
        b"https://github.com/qiin2333/Sunshine/releases/download/v1.0/Sunshine-Setup.exe",
    )
    .expect("the URL names a file of a release");
    assert_eq!(parts.owner, b"qiin2333".to_vec());
    assert_eq!(parts.repo, b"Sunshine".to_vec());
    assert_eq!(parts.tag, b"v1.0".to_vec());
    assert_eq!(parts.filename, b"Sunshine-Setup.exe".to_vec());
    let nested = parse_github_release_download_url(b"https://github.com/o/r/releases/download/t/a/b/c")
        .expect("a file name may hold slashes");
    assert_eq!(nested.filename, b"a/b/c".to_vec());
    let odd = parse_github_release_download_url(b"https://github.com//r/releases/download/t//")
        .expect("empty pieces are pieces");
    assert_eq!(odd.owner, Vec::<u8>::new());
    assert_eq!(odd.filename, b"/".to_vec());
    for url in [
        "http://github.com/o/r/releases/download/t/f",
        "https://github.com/o/r/releases/download/t/",
        "https://github.com/o/r/releases/download/t",
        "https://github.com/o/r/releases/tag/t/f",
        "https://github.com/o/r/release/download/t/f",
        "https://github.com/o/r",
        "https://github.com/",
        "https://gitlab.com/o/r/releases/download/t/f",
        "",
    ] {
        assert!(parse_github_release_download_url(url.as_bytes()).is_none(), "{}", url);
    }
}

#[test]
fn download_urls_try_cdn_then_mirrors_then_origin() {
    assert_eq!(
        build_jsdelivr_url(b"o", b"r", b"v1", b"f.exe"),
        b"https://cdn.jsdelivr.net/gh/o/r@v1/f.exe".to_vec()
    );
    let url = b"https://github.com/o/r/releases/download/v1/f.exe";
    assert_eq!(
        build_download_urls(url),
        vec![
            b"https://cdn.jsdelivr.net/gh/o/r@v1/f.exe".to_vec(),
            b"https://ghfast.top/https://github.com/o/r/releases/download/v1/f.exe".to_vec(),
            b"https://ghproxy.com/https://github.com/o/r/releases/download/v1/f.exe".to_vec(),
            b"https://mirror.ghproxy.com/https://github.com/o/r/releases/download/v1/f.exe".to_vec(),
            url.to_vec(),
        ]
    );
    assert_eq!(
        build_download_urls(b"https://example.com/f"),
        vec![
            b"https://ghfast.top/https://example.com/f".to_vec(),
            b"https://ghproxy.com/https://example.com/f".to_vec(),
            b"https://mirror.ghproxy.com/https://example.com/f".to_vec(),
            b"https://example.com/f".to_vec(),
        ]
    );
}

#[test]
fn update_check_offers_newer_release() {
    let releases = vec![
        release("v9.9", true, false, Vec::new()),
        release("v1.3.0", false, true, vec![asset("a.deb", "u1"), asset("a.exe", "u2")]),
        release("v1.2.0", false, false, Vec::new()),
    ];
    let info = evaluate_releases(b"1.2.9", &releases, false)
        .expect("no error")
        .expect("an update is offered");
    assert_eq!(info.version, b"v1.3.0".to_vec());
    assert_eq!(info.release_notes, b"notes of v1.3.0".to_vec());
    assert_eq!(info.download_url, Some(b"u2".to_vec()));
    assert_eq!(info.download_name, Some(b"a.exe".to_vec()));
    assert_eq!(info.release_page, b"https://github.com/o/r/releases/tag/v1.3.0".to_vec());
    assert!(evaluate_releases(b"v1.3.0", &releases, false).expect("no error").is_none());
    assert_eq!(
        evaluate_releases(b"v1.3.0", &releases, true).unwrap_err(),
        UpdateCheckError::AlreadyLatest
    );
    assert_eq!(
        evaluate_releases(b"0", &Vec::new(), true).unwrap_err(),
        UpdateCheckError::NoReleases
    );
    let drafts = vec![release("v2", true, false, Vec::new())];
    assert_eq!(
        evaluate_releases(b"0", &drafts, false).unwrap_err(),
        UpdateCheckError::NoUsableRelease
    );
    let bare = vec![release("1.0", false, false, Vec::new())];
    let info = evaluate_releases(b"0.0.0", &bare, true).expect("no error").expect("an update");
    assert_eq!(info.download_url, None);
    assert_eq!(info.download_name, None);
    assert_eq!(UpdateCheckError::NoReleases.message(), "未找到任何发布版本".as_bytes().to_vec());
    assert_eq!(UpdateCheckError::NoUsableRelease.message(), "未找到可用的发布版本".as_bytes().to_vec());
    assert_eq!(UpdateCheckError::AlreadyLatest.message(), "已是最新版本".as_bytes().to_vec());
}

#[test]
fn automatic_check_is_due_after_four_hours() {
    assert_eq!(UPDATE_CHECK_INTERVAL, 4 * 60 * 60);
    let mut preferences = UpdatePreferences::default();
    assert_eq!(preferences.last_check_time, 0);
    assert!(!preferences.is_check_due(14_400));
    assert!(preferences.is_check_due(14_401));
    preferences.record_check(1_000_000);
    assert_eq!(preferences, UpdatePreferences { last_check_time: 1_000_000 });
    assert!(!preferences.is_check_due(1_014_400));
    assert!(preferences.is_check_due(1_014_401));
    assert!(!preferences.is_check_due(5));
    assert!(preferences.is_check_due(u64::MAX));
}

#[test]
fn progress_is_a_percentage_rounded_down() {
    assert_eq!(progress_percent(50, 200), 25);
    assert_eq!(progress_percent(199, 200), 99);
    assert_eq!(progress_percent(200, 200), 100);
    assert_eq!(progress_percent(0, 0), 0);
    assert_eq!(progress_percent(7, 0), 0);
    assert_eq!(progress_percent(u64::MAX, u64::MAX), 100);
    assert_eq!(progress_percent(u64::MAX, 1), u32::MAX);
    assert_eq!(progress_percent(42_949_672_95, 100), u32::MAX);
    assert!(is_progress_reported(5, 4, 1, 100));
    assert!(!is_progress_reported(5, 5, 1, 100));
    assert!(is_progress_reported(100, 100, 1, 2));
    assert!(is_progress_reported(0, 0, 0, 0));
}

#[test]
fn install_command_depends_on_extension() {
    assert_eq!(
        build_install_command(b"C:\\Temp\\it's.msi", b"msi"),
        Ok(b"Start-Process msiexec -ArgumentList '/i', 'C:\\Temp\\it''s.msi', '/passive', '/norestart' -Verb RunAs -Wait".to_vec())
    );
    assert_eq!(
        build_install_command(b"C:\\a.exe", b"exe"),
        Ok(b"Start-Process 'C:\\a.exe' -ArgumentList '/VERYSILENT', '/SILENT', '/S', '/SUPPRESSMSGBOXES', '/NORESTART', '/SP-' -Verb RunAs -Wait".to_vec())
    );
    assert_eq!(
        build_install_command(b"a.zip", b"zip"),
        Err("不支持的安装包格式: zip".as_bytes().to_vec())
    );
    assert_eq!(build_install_command(b"a", b""), Err("不支持的安装包格式: ".as_bytes().to_vec()));
    assert_eq!(build_install_command(b"a.MSI", b"MSI"), Err("不支持的安装包格式: MSI".as_bytes().to_vec()));
}
