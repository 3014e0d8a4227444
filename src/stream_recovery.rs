//! Recognising transient streaming failures, and events that count as
//! progress, so that a round can recover instead of ending.

use vstd::prelude::*;

use crate::text::{contains, has_substring};

verus! {

/// The structured cause that the server attaches to an error, when it does.
#[derive(Clone, Copy, Debug, PartialEq, Eq, Structural)]
pub enum CodexErrorInfo {
    ContextWindowExceeded,
    UsageLimitExceeded,
    HttpConnectionFailed { http_status_code: Option<u16> },
    ResponseStreamConnectionFailed { http_status_code: Option<u16> },
    InternalServerError,
    Unauthorized,
    BadRequest,
    SandboxError,
    ResponseStreamDisconnected { http_status_code: Option<u16> },
    ResponseTooManyFailedAttempts { http_status_code: Option<u16> },
    Other,
}

/// An error reported by the agent.
#[derive(Clone, Debug, PartialEq, Eq)]
pub struct ErrorEvent {
    pub message: String,
    pub codex_error_info: Option<CodexErrorInfo>,
}

/// The kinds of event the agent emits.
#[derive(Clone, Copy, Debug, PartialEq, Eq, Structural)]
pub enum EventMsg {
    Error,
    TaskStarted,
    TaskComplete,
    TokenCount,
    AgentMessage,
    UserMessage,
    AgentMessageDelta,
    AgentReasoning,
    AgentReasoningDelta,
    AgentReasoningRawContent,
    AgentReasoningRawContentDelta,
    AgentReasoningSectionBreak,
    ExecCommandBegin,
    ExecCommandOutputDelta,
    ExecCommandEnd,
    ExecApprovalRequest,
    ApplyPatchApprovalRequest,
    PatchApplyBegin,
    PatchApplyEnd,
    PlanUpdate,
    ViewImageToolCall,
    WebSearchBegin,
    WebSearchEnd,
    StreamError,
    TurnAborted,
    ShutdownComplete,
}

/// The causes that a retried turn can recover from.
pub open spec fn retryable_info(info: Option<CodexErrorInfo>) -> bool {
    match info {
        Some(CodexErrorInfo::HttpConnectionFailed { .. }) => true,
        Some(CodexErrorInfo::ResponseStreamConnectionFailed { .. }) => true,
        Some(CodexErrorInfo::ResponseStreamDisconnected { .. }) => true,
        Some(CodexErrorInfo::ResponseTooManyFailedAttempts { .. }) => true,
        _ => false,
    }
}

pub open spec fn disconnected_text() -> Seq<char> {
    seq![
        's', 't', 'r', 'e', 'a', 'm', ' ', 'd', 'i', 's', 'c', 'o', 'n', 'n', 'e', 'c', 't', 'e', 'd', ' ',
        'b', 'e', 'f', 'o', 'r', 'e', ' ', 'c', 'o', 'm', 'p', 'l', 'e', 't', 'i', 'o', 'n'
    ]
}

pub open spec fn send_failed_text() -> Seq<char> {
    seq![
        'e', 'r', 'r', 'o', 'r', ' ', 's', 'e', 'n', 'd', 'i', 'n', 'g', ' ', 'r', 'e', 'q', 'u', 'e', 's', 't',
        ' ', 'f', 'o', 'r', ' ', 'u', 'r', 'l'
    ]
}

/// Returns `true` when `event` represents a transient streaming/network failure.
///
/// A structured cause decides when it is one of the connection or stream
/// failures; otherwise, for servers that do not send one, the message is
/// matched against the two texts such failures carry.
pub fn is_retryable_stream_error(event: &ErrorEvent) -> (r: bool)
    ensures
        r == (retryable_info(event.codex_error_info) || has_substring(event.message@, disconnected_text())
            || has_substring(event.message@, send_failed_text())),
{
    match event.codex_error_info {
        Some(CodexErrorInfo::HttpConnectionFailed { .. })
        | Some(CodexErrorInfo::ResponseStreamConnectionFailed { .. })
        | Some(CodexErrorInfo::ResponseStreamDisconnected { .. })
        | Some(CodexErrorInfo::ResponseTooManyFailedAttempts { .. }) => true,
        _ => {
            let disconnected: &str = "stream disconnected before completion";
            let send_failed: &str = "error sending request for url";
            proof {
                reveal_strlit("stream disconnected before completion");
                reveal_strlit("error sending request for url");
                assert(disconnected@ =~= disconnected_text());
                assert(send_failed@ =~= send_failed_text());
            }
            let message = event.message.as_str();
            contains(message, disconnected) || contains(message, send_failed)
        },
    }
}

/// The events that count as activity: agent messages, reasoning output and
/// tool call results.
pub open spec fn activity(msg: EventMsg) -> bool {
    match msg {
        EventMsg::AgentMessage | EventMsg::AgentMessageDelta | EventMsg::AgentReasoning
        | EventMsg::AgentReasoningDelta | EventMsg::AgentReasoningRawContent
        | EventMsg::AgentReasoningRawContentDelta | EventMsg::AgentReasoningSectionBreak
        | EventMsg::ExecCommandEnd | EventMsg::PatchApplyEnd | EventMsg::PlanUpdate
        | EventMsg::ViewImageToolCall | EventMsg::WebSearchEnd => true,
        _ => false,
    }
}

/// Returns `true` when `msg` counts as activity for stream recovery; seeing
/// activity resets the backoff and the retry limit for later failures.
pub fn is_activity_event(msg: &EventMsg) -> (r: bool)
    ensures
        r == activity(*msg),
{
    match msg {
        EventMsg::AgentMessage | EventMsg::AgentMessageDelta | EventMsg::AgentReasoning
        | EventMsg::AgentReasoningDelta | EventMsg::AgentReasoningRawContent
        | EventMsg::AgentReasoningRawContentDelta | EventMsg::AgentReasoningSectionBreak
        | EventMsg::ExecCommandEnd | EventMsg::PatchApplyEnd | EventMsg::PlanUpdate
        | EventMsg::ViewImageToolCall | EventMsg::WebSearchEnd => true,
        _ => false,
    }
}

} // verus!
