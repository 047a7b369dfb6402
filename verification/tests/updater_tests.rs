use dictum::updater::{
    check_release, download_truncated, installer_file_name, is_newer, is_stale_installer, parse_version,
    retry_delay_secs, select_update, GithubAsset, GithubRelease,
};

fn asset(name: &str, url: &str, size: u64) -> GithubAsset {
    GithubAsset { name: name.to_string(), browser_download_url: url.to_string(), size }
}

fn release(tag: &str, assets: Vec<GithubAsset>, prerelease: bool, draft: bool) -> GithubRelease {
    GithubRelease {
        tag_name: tag.to_string(),
        html_url: "https://github.com/painteau/Dictum/releases/latest".to_string(),
        assets,
        prerelease,
        draft,
    }
}

#[test]
fn newer_compares_major_minor_patch() {
    assert!(is_newer("0.2.0", "0.1.1"));
    assert!(!is_newer("0.1.1", "0.2.0"));
    assert!(is_newer("1.0.10", "1.0.9"));
    assert!(is_newer("2", "1.9.9"));
    assert!(!is_newer("1.0.0", "1.0.0"));
}

#[test]
fn unparsable_parts_are_skipped() {
    assert_eq!(parse_version("1.x.2"), (1, 2, 0));
    assert_eq!(parse_version("v1.2.3"), (2, 3, 0));
    assert_eq!(parse_version(""), (0, 0, 0));
    assert_eq!(parse_version("1.+2.3.4"), (1, 2, 3));
    assert_eq!(parse_version("99999999999.1"), (1, 0, 0));
}

#[test]
fn newer_is_a_strict_order_on_examples() {
    let vs = ["0.9.9", "1.0.0", "1.0.1", "1.1", "2.0.0", "garbage"];
    for a in vs.iter() {
        assert!(!is_newer(a, a));
        for b in vs.iter() {
            assert!(!(is_newer(a, b) && is_newer(b, a)));
            for c in vs.iter() {
                if is_newer(a, b) && is_newer(b, c) {
                    assert!(is_newer(a, c));
                }
            }
        }
    }
}

#[test]
fn update_is_offered_for_a_newer_release_with_installer() {
    let r = release(
        "v1.2.0",
        vec![
            asset("notes.txt", "u0", 1),
            asset("Dictum-Setup-1.2.0-x64.exe", "u1", 1000),
            asset("Dictum-Setup-1.2.0-arm.exe", "u2", 2000),
        ],
        false,
        false,
    );
    let info = select_update(&r, "1.0.0").expect("update");
    assert_eq!(info.version, "1.2.0");
    assert_eq!(info.url, "https://github.com/painteau/Dictum/releases/latest");
    assert_eq!(info.installer_url, "u1");
    assert_eq!(info.installer_size, 1000);
}

#[test]
fn no_update_for_prerelease_draft_or_same_version() {
    let a = vec![asset("Dictum-Setup-9.exe", "u", 1)];
    assert!(select_update(&release("v9.0.0", a, true, false), "1.0.0").is_none());
    let a = vec![asset("Dictum-Setup-9.exe", "u", 1)];
    assert!(select_update(&release("v9.0.0", a, false, true), "1.0.0").is_none());
    let a = vec![asset("Dictum-Setup-9.exe", "u", 1)];
    assert!(select_update(&release("1.0.0", a, false, false), "1.0.0").is_none());
    let a = vec![asset("Dictum-Setup-9.exe", "u", 1)];
    assert!(check_release(&release("v1.0.0", a, false, false)).is_none());
}

#[test]
fn no_update_without_installer() {
    let a = vec![asset("Dictum-Setup-9.zip", "u", 1), asset("setup.exe", "u", 1)];
    assert!(select_update(&release("v9.0.0", a, false, false), "1.0.0").is_none());
}

#[test]
fn all_leading_v_are_trimmed() {
    let a = vec![asset("Dictum-Setup.exe", "u", 5)];
    let info = check_release(&release("vv2.0.0", a, false, false)).expect("update");
    assert_eq!(info.version, "2.0.0");
}

#[test]
fn retry_delays_grow_then_stop() {
    assert_eq!(retry_delay_secs(0), Some(1));
    assert_eq!(retry_delay_secs(1), Some(2));
    assert_eq!(retry_delay_secs(2), None);
}

#[test]
fn installer_names() {
    assert_eq!(installer_file_name("1.2.0"), "Dictum-Setup-1.2.0.exe");
    assert!(is_stale_installer("Dictum-Setup-1.1.0.exe", "1.2.0"));
    assert!(!is_stale_installer("Dictum-Setup-1.2.0.exe", "1.2.0"));
    assert!(!is_stale_installer("Dictum-Setup-1.1.0.msi", "1.2.0"));
    assert!(!is_stale_installer("other.exe", "1.2.0"));
}

#[test]
fn truncated_download_detection() {
    assert!(download_truncated(10, 100));
    assert!(!download_truncated(50, 100));
    assert!(!download_truncated(0, 0));
    assert!(!download_truncated(49, 99));
}
