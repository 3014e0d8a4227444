//! Skill discovery for the terminal client, together with the small pieces of
//! policy around it: update checks, stream-error recovery and session summaries.

pub mod text;
pub mod skills;
pub mod frontmatter;
pub mod skill_file;
pub mod walker;
pub mod roots;
pub mod updates;
pub mod update_action;
pub mod stream_recovery;
pub mod session_summary;
