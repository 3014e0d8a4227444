use codex_potter::update_action::{detect_update_action, UpdateAction};
use codex_potter::updates::{
    check_for_updates, extract_version_from_latest_tag, is_newer, needs_refresh, parse_version,
    refreshed_version_info, Timestamp, VersionInfo,
};

#[test]
fn detects_update_action_without_env_mutation() {
    assert_eq!(detect_update_action(false, false), None);
    assert_eq!(
        detect_update_action(true, false),
        Some(UpdateAction::NpmGlobalLatest)
    );
    assert_eq!(
        detect_update_action(false, true),
        Some(UpdateAction::BunGlobalLatest)
    );
}

#[test]
fn npm_wins_when_both_managers_claim_the_install() {
    assert_eq!(
        detect_update_action(true, true),
        Some(UpdateAction::NpmGlobalLatest)
    );
}

#[test]
fn command_args_and_string() {
    let (program, args) = UpdateAction::NpmGlobalLatest.command_args();
    assert_eq!(program, "npm");
    assert_eq!(args, ["install", "-g", "codex-potter"]);
    assert_eq!(
        UpdateAction::NpmGlobalLatest.command_str(),
        "npm install -g codex-potter"
    );
    assert_eq!(
        UpdateAction::BunGlobalLatest.command_str(),
        "bun install -g codex-potter"
    );
}

#[test]
fn extracts_version_from_latest_tag() {
    assert_eq!(
        extract_version_from_latest_tag("v1.5.0").expect("failed to parse version"),
        "1.5.0"
    );
}

#[test]
fn latest_tag_without_prefix_is_invalid() {
    assert!(extract_version_from_latest_tag("1.5.0").is_err());
}

#[test]
fn latest_tag_is_trimmed_and_error_keeps_the_tag() {
    assert_eq!(
        extract_version_from_latest_tag("  v2.0.1\n").expect("tag"),
        "2.0.1"
    );
    let err = extract_version_from_latest_tag(" 1.5.0").unwrap_err();
    assert_eq!(err.tag, " 1.5.0");
    assert!(extract_version_from_latest_tag("").is_err());
}

#[test]
fn prerelease_version_is_not_considered_newer() {
    assert_eq!(is_newer("0.11.0-beta.1", "0.11.0"), None);
    assert_eq!(is_newer("1.0.0-rc.1", "1.0.0"), None);
}

#[test]
fn plain_semver_comparisons_work() {
    assert_eq!(is_newer("0.11.1", "0.11.0"), Some(true));
    assert_eq!(is_newer("0.11.0", "0.11.1"), Some(false));
    assert_eq!(is_newer("1.0.0", "0.9.9"), Some(true));
    assert_eq!(is_newer("0.9.9", "1.0.0"), Some(false));
}

#[test]
fn whitespace_is_ignored() {
    assert_eq!(parse_version(" 1.2.3 \n"), Some((1, 2, 3)));
    assert_eq!(is_newer(" 1.2.3 ", "1.2.2"), Some(true));
}

#[test]
fn version_parsing_edge_cases() {
    assert_eq!(parse_version("1.2"), None);
    assert_eq!(parse_version("1.2.3.4"), Some((1, 2, 3)));
    assert_eq!(parse_version("+1.2.3"), Some((1, 2, 3)));
    assert_eq!(parse_version("1..3"), None);
    assert_eq!(parse_version("18446744073709551615.0.0"), Some((u64::MAX, 0, 0)));
    assert_eq!(parse_version("18446744073709551616.0.0"), None);
    assert_eq!(is_newer("1.2.3", "1.2.3"), Some(false));
}

fn info(latest: &str, dismissed: Option<&str>) -> VersionInfo {
    VersionInfo {
        latest_version: latest.to_string(),
        last_checked_at: Timestamp { secs: 1_000_000, nanos: 0 },
        dismissed_version: dismissed.map(str::to_string),
    }
}

#[test]
fn check_for_updates_respects_dismissal_and_switch() {
    let cached = info("1.2.0", None);
    let r = check_for_updates(true, "1.1.0", Some(&cached));
    assert_eq!(r.upgrade_version.as_deref(), Some("1.2.0"));
    assert_eq!(r.popup_version.as_deref(), Some("1.2.0"));

    let dismissed = info("1.2.0", Some("1.2.0"));
    let r = check_for_updates(true, "1.1.0", Some(&dismissed));
    assert_eq!(r.upgrade_version.as_deref(), Some("1.2.0"));
    assert_eq!(r.popup_version, None);

    let r = check_for_updates(false, "1.1.0", Some(&cached));
    assert_eq!(r.upgrade_version, None);
    assert_eq!(r.popup_version, None);

    let r = check_for_updates(true, "1.2.0", Some(&cached));
    assert_eq!(r.upgrade_version, None);
    let r = check_for_updates(true, "1.1.0", None);
    assert_eq!(r.upgrade_version, None);
}

#[test]
fn refresh_after_twenty_hours() {
    let cached = info("1.2.0", None);
    assert!(needs_refresh(None, Timestamp { secs: 0, nanos: 0 }));
    let twenty_hours = 20 * 3600;
    assert!(!needs_refresh(
        Some(&cached),
        Timestamp { secs: 1_000_000 + twenty_hours, nanos: 0 }
    ));
    assert!(needs_refresh(
        Some(&cached),
        Timestamp { secs: 1_000_000 + twenty_hours, nanos: 1 }
    ));
}

#[test]
fn refreshed_info_keeps_dismissal() {
    let now = Timestamp { secs: 5, nanos: 7 };
    let prev = info("1.0.0", Some("1.0.0"));
    let next = refreshed_version_info("v1.1.0", now, Some(prev)).expect("tag");
    assert_eq!(next.latest_version, "1.1.0");
    assert_eq!(next.last_checked_at, now);
    assert_eq!(next.dismissed_version.as_deref(), Some("1.0.0"));
    assert!(refreshed_version_info("1.1.0", now, None).is_err());
}
