use std::time::Duration;

use codex_potter::session_summary::{elapsed_parts, new_potter_session_succeeded, short_git_commit};
use codex_potter::stream_recovery::{
    is_activity_event, is_retryable_stream_error, CodexErrorInfo, ErrorEvent, EventMsg,
};

#[test]
fn structured_stream_failures_are_retryable() {
    let event = ErrorEvent {
        message: "boom".to_string(),
        codex_error_info: Some(CodexErrorInfo::ResponseStreamDisconnected { http_status_code: None }),
    };
    assert!(is_retryable_stream_error(&event));
    let event = ErrorEvent {
        message: "stream disconnected before completion".to_string(),
        codex_error_info: Some(CodexErrorInfo::UsageLimitExceeded),
    };
    assert!(is_retryable_stream_error(&event));
    let event = ErrorEvent {
        message: "quota".to_string(),
        codex_error_info: Some(CodexErrorInfo::UsageLimitExceeded),
    };
    assert!(!is_retryable_stream_error(&event));
}

#[test]
fn message_fallback_matches_known_texts() {
    let event = ErrorEvent {
        message: "x: error sending request for url (https://h)".to_string(),
        codex_error_info: None,
    };
    assert!(is_retryable_stream_error(&event));
    let event = ErrorEvent { message: "stream disconnected".to_string(), codex_error_info: None };
    assert!(!is_retryable_stream_error(&event));
}

#[test]
fn activity_events() {
    assert!(is_activity_event(&EventMsg::AgentMessageDelta));
    assert!(is_activity_event(&EventMsg::ExecCommandEnd));
    assert!(is_activity_event(&EventMsg::WebSearchEnd));
    assert!(!is_activity_event(&EventMsg::ExecCommandBegin));
    assert!(!is_activity_event(&EventMsg::TaskComplete));
}

#[test]
fn commits_are_abbreviated() {
    assert_eq!(short_git_commit("0123456789abcdef"), "0123456");
    assert_eq!(short_git_commit("abc"), "abc");
    assert_eq!(short_git_commit("0123456"), "0123456");
    assert_eq!(short_git_commit(""), "");
}

#[test]
fn session_summary_reports_git_range() {
    let cell = new_potter_session_succeeded(
        3,
        Duration::from_secs(65),
        "/tmp/task.md".to_string(),
        "aaaaaaaaaa".to_string(),
        "bbbbbbbbbb".to_string(),
    );
    assert_eq!(cell.round_count(), 3);
    assert_eq!(cell.elapsed(), Duration::from_secs(65));
    assert_eq!(cell.prompt_file(), "/tmp/task.md");
    assert!(cell.shows_git_range());
    assert_eq!(cell.git_range(), ("aaaaaaa".to_string(), "bbbbbbb".to_string()));
    let empty = new_potter_session_succeeded(1, Duration::ZERO, String::new(), String::new(), String::new());
    assert!(!empty.shows_git_range());
}

#[test]
fn elapsed_time_is_split_into_parts() {
    assert_eq!(elapsed_parts(0), (0, 0, 0));
    assert_eq!(elapsed_parts(59), (0, 0, 59));
    assert_eq!(elapsed_parts(65), (0, 1, 5));
    assert_eq!(elapsed_parts(3725), (1, 2, 5));
    assert_eq!(elapsed_parts(u64::MAX).0, u64::MAX / 3600);
}
