use orbitdock_server::releases::{
    check_rate_limit, is_update, latest_matching_release, matches_channel, parse_decimal_u64,
    release_asset_name, should_recheck_update, should_recheck_update_manual, update_check_result,
    GitHubAsset, GitHubRelease, ReleaseInfo, UpdateChannel, UpdateCheckGuard, Version,
};

fn release(tag: &str, prerelease: bool) -> GitHubRelease {
    release_with_assets(tag, prerelease, &[])
}

fn release_with_assets(tag: &str, prerelease: bool, assets: &[&str]) -> GitHubRelease {
    GitHubRelease {
        tag_name: tag.to_string(),
        html_url: format!("https://github.com/Robdel12/OrbitDock/releases/tag/{tag}"),
        published_at: None,
        prerelease,
        assets: assets
            .iter()
            .map(|name| GitHubAsset {
                name: (*name).to_string(),
                browser_download_url: format!("https://example.com/{name}"),
                size: 1,
            })
            .collect(),
    }
}

fn version(text: &str) -> Version {
    Version::parse(text).unwrap()
}

#[test]
fn stable_matches_non_prerelease() {
    assert!(matches_channel(&release("v0.7.0", false), UpdateChannel::Stable));
    assert!(!matches_channel(&release("v0.7.0-beta.1", true), UpdateChannel::Stable));
}

#[test]
fn beta_matches_beta_prerelease() {
    assert!(matches_channel(&release("v0.7.0-beta.1", true), UpdateChannel::Beta));
    assert!(!matches_channel(&release("v0.7.0", false), UpdateChannel::Beta));
    assert!(!matches_channel(&release("nightly", true), UpdateChannel::Beta));
}

#[test]
fn nightly_matches_nightly() {
    assert!(matches_channel(&release("nightly", true), UpdateChannel::Nightly));
    assert!(matches_channel(
        &release("v0.7.0-nightly.20260327", true),
        UpdateChannel::Nightly
    ));
    assert!(!matches_channel(&release("v0.7.0", false), UpdateChannel::Nightly));
}

#[test]
fn stable_update_check() {
    let current = version("0.6.0");
    let newer = version("0.7.0");
    let older = version("0.5.0");
    let same = version("0.6.0");
    let beta = version("0.7.0-beta.1");

    assert!(is_update(&current, &newer, UpdateChannel::Stable));
    assert!(!is_update(&current, &older, UpdateChannel::Stable));
    assert!(!is_update(&current, &same, UpdateChannel::Stable));
    assert!(!is_update(&current, &beta, UpdateChannel::Stable));
}

#[test]
fn beta_update_check() {
    let current = version("0.6.0");
    let beta = version("0.7.0-beta.1");

    assert!(is_update(&current, &beta, UpdateChannel::Beta));
}

#[test]
fn latest_matching_release_skips_binary_less_tags() {
    let releases = vec![
        release("v0.7.0", false),
        release_with_assets("v0.6.1", false, &["orbitdock-darwin-arm64.zip"]),
    ];

    let selected =
        latest_matching_release(&releases, UpdateChannel::Stable, "orbitdock-darwin-arm64.zip")
            .unwrap();

    assert_eq!(selected.tag_name, "v0.6.1");
}

#[test]
fn latest_matching_release_returns_none_when_no_installable_asset_exists() {
    let releases = vec![release("v0.7.0", false), release("v0.6.1", false)];

    let selected =
        latest_matching_release(&releases, UpdateChannel::Stable, "orbitdock-darwin-arm64.zip");

    assert!(selected.is_none());
}

#[test]
fn channel_roundtrip() {
    for channel in [
        UpdateChannel::Stable,
        UpdateChannel::Beta,
        UpdateChannel::Nightly,
    ] {
        let s = channel.as_str();
        let parsed: UpdateChannel = s.parse().unwrap();
        assert_eq!(parsed, channel);
    }
}

#[test]
fn channel_case_insensitive() {
    assert_eq!(
        "STABLE".parse::<UpdateChannel>().unwrap(),
        UpdateChannel::Stable
    );
    assert_eq!(
        "Beta".parse::<UpdateChannel>().unwrap(),
        UpdateChannel::Beta
    );
    assert_eq!(
        "NIGHTLY".parse::<UpdateChannel>().unwrap(),
        UpdateChannel::Nightly
    );
}

#[test]
fn invalid_channel() {
    assert!("alpha".parse::<UpdateChannel>().is_err());
}

#[test]
fn unknown_channel_message_names_the_value() {
    let err = "alpha".parse::<UpdateChannel>().unwrap_err();
    assert_eq!(
        err.message(),
        "Unknown update channel: alpha. Expected stable, beta, or nightly"
    );
}

fn info(tag: &str, prerelease: bool) -> ReleaseInfo {
    ReleaseInfo {
        tag_name: tag.to_string(),
        html_url: String::new(),
        published_at: None,
        prerelease,
        assets: vec![],
    }
}

#[test]
fn release_info_parses_version() {
    let v = info("v0.7.0", false).version().unwrap();
    assert_eq!((v.major(), v.minor(), v.patch()), (0, 7, 0));
    assert!(v.pre_is_empty());
}

#[test]
fn release_info_parses_prerelease_version() {
    let v = info("v0.8.0-beta.1", true).version().unwrap();
    assert!(!v.pre_is_empty());
}

#[test]
fn release_info_nightly_tag() {
    // "nightly" is not valid semver — version() returns None
    assert!(info("nightly", true).version().is_none());
}

#[test]
fn resolve_prefers_override_then_persisted_then_stable() {
    assert_eq!(UpdateChannel::resolve(Some("beta"), Some("nightly")).unwrap(), UpdateChannel::Beta);
    assert!(UpdateChannel::resolve(Some("bogus"), None).is_err());
    assert_eq!(UpdateChannel::resolve(None, Some("Nightly")).unwrap(), UpdateChannel::Nightly);
    assert_eq!(UpdateChannel::resolve(None, Some("bogus")).unwrap(), UpdateChannel::Stable);
    assert_eq!(UpdateChannel::resolve(None, None).unwrap(), UpdateChannel::Stable);
}

#[test]
fn asset_named_finds_the_platform_asset() {
    let r = ReleaseInfo::from_github(&release_with_assets(
        "v1.0.0",
        false,
        &["a.zip", "orbitdock-linux-x86_64.zip"],
    ));
    assert_eq!(
        r.asset_named("orbitdock-linux-x86_64.zip").unwrap().browser_download_url,
        "https://example.com/orbitdock-linux-x86_64.zip"
    );
    assert!(r.asset_named("missing.zip").is_none());
}

#[test]
fn update_check_result_reports_newer_release() {
    let current = version("0.6.0");
    let newer = info("v0.7.0", false);
    let result = update_check_result(&current, Some(&newer), UpdateChannel::Stable);
    assert!(result.update_available);
    assert_eq!(result.current_version, "0.6.0");
    assert_eq!(result.latest_version.as_deref(), Some("v0.7.0"));

    let nightly = info("nightly", true);
    assert!(update_check_result(&current, Some(&nightly), UpdateChannel::Nightly).update_available);
    assert!(!update_check_result(&current, Some(&nightly), UpdateChannel::Beta).update_available);
    let none = update_check_result(&current, None, UpdateChannel::Stable);
    assert!(!none.update_available);
    assert!(none.latest_version.is_none());
}

#[test]
fn platform_asset_names() {
    assert_eq!(release_asset_name("macos", "x86_64").unwrap(), "orbitdock-darwin-arm64.zip");
    assert_eq!(release_asset_name("linux", "x86_64").unwrap(), "orbitdock-linux-x86_64.zip");
    assert_eq!(release_asset_name("linux", "aarch64").unwrap(), "orbitdock-linux-aarch64.zip");
    assert_eq!(release_asset_name("windows", "x86_64").unwrap_err(), "Unsupported platform: windows / x86_64");
}

#[test]
fn decimal_parsing_matches_std() {
    for s in ["0", "+7", "18446744073709551615", "18446744073709551616", "", "+", "-1", "12a", " 1", "007"] {
        assert_eq!(parse_decimal_u64(s), s.parse::<u64>().ok(), "{s:?}");
    }
}

#[test]
fn rate_limit_is_an_error_only_when_forbidden_and_spent() {
    assert!(check_rate_limit(false, Some("0"), None).is_ok());
    assert!(check_rate_limit(true, Some("3"), None).is_ok());
    assert!(check_rate_limit(true, None, Some("5")).is_ok());
    assert_eq!(
        check_rate_limit(true, Some("0"), Some("1700000000")).unwrap_err(),
        "GitHub API rate limit exceeded (resets at epoch 1700000000)"
    );
    assert_eq!(check_rate_limit(true, Some("0"), Some("soon")).unwrap_err(), "GitHub API rate limit exceeded");
}

#[test]
fn update_rechecks_wait_six_hours_or_five_minutes() {
    let hour: i128 = 3_600_000_000_000;
    assert!(should_recheck_update(None, 0));
    assert!(!should_recheck_update(Some(0), 6 * hour));
    assert!(should_recheck_update(Some(0), 6 * hour + 1));
    assert!(!should_recheck_update_manual(Some(0), 5 * 60_000_000_000));
    assert!(should_recheck_update_manual(Some(0), 5 * 60_000_000_000 + 1));
    let mut guard = UpdateCheckGuard::new();
    assert!(guard.claim_update_check());
    assert!(!guard.claim_update_check());
    guard.release_update_check();
    assert!(guard.claim_update_check());
}

#[test]
fn unknown_channel_reports_its_unicode_lowercase() {
    match UpdateChannel::parse_name("ÉTÉ") {
        Err(e) => assert_eq!(e.value, "été"),
        Ok(c) => panic!("unexpected channel {c:?}"),
    }
    assert_eq!(UpdateChannel::parse_name("NiGhTlY").unwrap(), UpdateChannel::Nightly);
    match UpdateChannel::resolve(Some("Bogus"), None) {
        Err(e) => assert_eq!(e.value, "bogus"),
        Ok(c) => panic!("unexpected channel {c:?}"),
    }
}

#[test]
fn lowered_names_match_exactly() {
    assert_eq!(UpdateChannel::channel_of_lowered("beta".to_string()).unwrap(), UpdateChannel::Beta);
    match UpdateChannel::channel_of_lowered("Beta".to_string()) {
        Err(e) => assert_eq!(e.value, "Beta"),
        Ok(c) => panic!("unexpected channel {c:?}"),
    }
}
