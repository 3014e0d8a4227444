//! The summary shown when a multi-round session succeeds.

use vstd::prelude::*;
use vstd::string::StringSliceAdditionalSpecFns;
use vstd::utf8::{decode_utf8, encode_utf8, is_char_boundary};

verus! {

/// Length of an abbreviated commit id.
pub const SHORT_SHA_LEN: usize = 7;

/// What the summary of a successful session reports.
#[derive(Debug)]
pub struct PotterSessionSucceededCell {
    rounds: u32,
    duration: std::time::Duration,
    user_prompt_file: String,
    git_commit_start: String,
    git_commit_end: String,
}

pub fn new_potter_session_succeeded(
    rounds: u32,
    duration: std::time::Duration,
    user_prompt_file: String,
    git_commit_start: String,
    git_commit_end: String,
) -> (r: PotterSessionSucceededCell)
    ensures
        r.rounds() == rounds,
        r.duration() == duration,
        r.user_prompt_file() == user_prompt_file,
        r.git_commit_start() == git_commit_start,
        r.git_commit_end() == git_commit_end,
{
    PotterSessionSucceededCell { rounds, duration, user_prompt_file, git_commit_start, git_commit_end }
}

impl PotterSessionSucceededCell {
    pub closed spec fn rounds(&self) -> u32 {
        self.rounds
    }

    pub closed spec fn duration(&self) -> std::time::Duration {
        self.duration
    }

    pub closed spec fn user_prompt_file(&self) -> String {
        self.user_prompt_file
    }

    pub closed spec fn git_commit_start(&self) -> String {
        self.git_commit_start
    }

    pub closed spec fn git_commit_end(&self) -> String {
        self.git_commit_end
    }

    /// How many rounds the session ran.
    pub fn round_count(&self) -> (r: u32)
        ensures
            r == self.rounds(),
    {
        self.rounds
    }

    /// How long the session took.
    pub fn elapsed(&self) -> (r: std::time::Duration)
        ensures
            r == self.duration(),
    {
        self.duration
    }

    /// The file that holds the task history.
    pub fn prompt_file(&self) -> (r: &str)
        ensures
            r@ == self.user_prompt_file()@,
    {
        self.user_prompt_file.as_str()
    }

    /// The commit ids the session started and ended at, as given.
    pub fn git_commits(&self) -> (r: (&str, &str))
        ensures
            r.0@ == self.git_commit_start()@,
            r.1@ == self.git_commit_end()@,
    {
        (self.git_commit_start.as_str(), self.git_commit_end.as_str())
    }

    /// Whether the summary has a line for the commit range: unless both
    /// commit ids are empty.
    pub fn shows_git_range(&self) -> (r: bool)
        ensures
            r == !(self.git_commit_start()@.len() == 0 && self.git_commit_end()@.len() == 0),
    {
        !(self.git_commit_start.as_str().is_empty() && self.git_commit_end.as_str().is_empty())
    }

    /// The abbreviated commit ids the session started and ended at.
    pub fn git_range(&self) -> (r: (String, String))
        requires
            short_commit_defined(self.git_commit_start()@),
            short_commit_defined(self.git_commit_end()@),
        ensures
            r.0@ == short_commit(self.git_commit_start()@),
            r.1@ == short_commit(self.git_commit_end()@),
    {
        (short_git_commit(self.git_commit_start.as_str()), short_git_commit(self.git_commit_end.as_str()))
    }
}

/// The abbreviation of a commit id is defined: it is short enough to keep
/// whole, or its seventh byte ends a character.
pub open spec fn short_commit_defined(commit: Seq<char>) -> bool {
    let s = encode_utf8(commit);
    s.len() <= SHORT_SHA_LEN || is_char_boundary(s, SHORT_SHA_LEN as int)
}

/// A commit id cut to its first seven bytes, if it is longer.
pub open spec fn short_commit(commit: Seq<char>) -> Seq<char> {
    let s = encode_utf8(commit);
    if s.len() <= SHORT_SHA_LEN {
        commit
    } else {
        decode_utf8(s.subrange(0, SHORT_SHA_LEN as int))
    }
}

/// A commit id cut to its first seven bytes.
pub fn short_git_commit(commit: &str) -> (r: String)
    requires
        short_commit_defined(commit@),
    ensures
        r@ == short_commit(commit@),
{
    let n = commit.as_bytes().len();
    if n <= SHORT_SHA_LEN {
        return commit.to_owned();
    }
    let (head, _) = commit.split_at(SHORT_SHA_LEN);
    proof {
        vstd::utf8::encode_utf8_decode_utf8(head@);
    }
    head.to_owned()
}

/// Splits a duration in seconds into hours, minutes and seconds, for a
/// compact display.
pub fn elapsed_parts(secs: u64) -> (r: (u64, u64, u64))
    ensures
        r.0 * 3600 + r.1 * 60 + r.2 == secs,
        r.1 < 60,
        r.2 < 60,
{
    (secs / 3600, secs / 60 % 60, secs % 60)
}

} // verus!
