//! Update checks: reading release tags and versions, comparing versions, and
//! deciding what to announce from the cached release information.

use vstd::prelude::*;

use crate::text::{chars_between, chars_of, split_on, split_prefix, string_of, trim, trimmed, visible_ascii_ends};

verus! {

/// What `u64::from_str` accepts: an optional `+` followed by decimal digits,
/// with a value that fits.
pub open spec fn is_digit(c: char) -> bool {
    '0' <= c && c <= '9'
}

/// The value of a run of decimal digits.
pub open spec fn digits_value(d: Seq<char>) -> int
    decreases d.len(),
{
    if d.len() == 0 {
        0
    } else {
        digits_value(d.drop_last()) * 10 + (d.last() as int - '0' as int)
    }
}

/// The number `u64::from_str` reads from `s`, if it reads one.
pub open spec fn decimal_u64(s: Seq<char>) -> Option<u64> {
    let d = if s.len() > 0 && s[0] == '+' {
        s.drop_first()
    } else {
        s
    };
    if d.len() > 0 && (forall|i: int| 0 <= i < d.len() ==> is_digit(#[trigger] d[i])) && digits_value(d)
        <= u64::MAX {
        Some(digits_value(d) as u64)
    } else {
        None
    }
}

/// Relies on `u64::from_str`: an optional `+` sign followed by decimal
/// digits, failing on anything else and on values past `u64::MAX`.
#[verifier::external_body]
fn parse_u64(s: &str) -> (r: Option<u64>)
    ensures
        r == decimal_u64(s@),
{
    s.parse::<u64>().ok()
}

/// A release tag that does not name a version.
#[derive(Clone, Debug, PartialEq, Eq)]
pub struct InvalidTag {
    pub tag: String,
}

/// The version a release tag names: the tag trimmed, less its leading `v`.
pub open spec fn tag_version(tag: Seq<char>) -> Option<Seq<char>> {
    let t = trimmed(tag);
    if t.len() > 0 && t[0] == 'v' {
        Some(t.drop_first())
    } else {
        None
    }
}

/// Reads the version out of a release tag such as `v1.5.0`; a tag without
/// the leading `v` is refused.
pub fn extract_version_from_latest_tag(latest_tag_name: &str) -> (r: Result<String, InvalidTag>)
    ensures
        r is Ok <==> tag_version(latest_tag_name@) is Some,
        visible_ascii_ends(latest_tag_name@) ==> trimmed(latest_tag_name@) == latest_tag_name@,
        match r {
            Ok(v) => Some(v@) == tag_version(latest_tag_name@),
            Err(e) => e.tag@ == latest_tag_name@,
        },
{
    let t = chars_of(trim(latest_tag_name));
    if t.len() > 0 && t[0] == 'v' {
        let rest = chars_between(&t, 1, t.len());
        proof {
            assert(rest@ =~= t@.drop_first());
        }
        Ok(string_of(rest.as_slice()))
    } else {
        Err(InvalidTag { tag: latest_tag_name.to_owned() })
    }
}

/// The `major.minor.patch` triple of a version string: the string trimmed and
/// split on dots, its first three pieces read as numbers; further pieces are
/// ignored.
pub open spec fn parsed_version(v: Seq<char>) -> Option<(u64, u64, u64)> {
    let ps = split_on(trimmed(v), '.');
    if ps.len() >= 3 && decimal_u64(ps[0]) is Some && decimal_u64(ps[1]) is Some && decimal_u64(ps[2]) is Some {
        Some((decimal_u64(ps[0])->0, decimal_u64(ps[1])->0, decimal_u64(ps[2])->0))
    } else {
        None
    }
}

/// Reads `major.minor.patch` from a version string; `None` when a piece is
/// missing or is not a number (a pre-release suffix such as `0-beta` is not).
pub fn parse_version(v: &str) -> (r: Option<(u64, u64, u64)>)
    ensures
        r == parsed_version(v@),
        visible_ascii_ends(v@) ==> trimmed(v@) == v@,
{
    let t = chars_of(trim(v));
    let pieces = split_prefix(&t, t.len(), '.');
    proof {
        assert(t@.subrange(0, t@.len() as int) =~= t@);
        assert(pieces@.len() == split_on(trimmed(v@), '.').len());
    }
    if pieces.len() < 3 {
        return None;
    }
    let maj = parse_u64(string_of(pieces[0].as_slice()).as_str());
    let min = parse_u64(string_of(pieces[1].as_slice()).as_str());
    let pat = parse_u64(string_of(pieces[2].as_slice()).as_str());
    proof {
        let ps = split_on(trimmed(v@), '.');
        assert(ps[0] == pieces@[0]@);
        assert(ps[1] == pieces@[1]@);
        assert(ps[2] == pieces@[2]@);
    }
    match (maj, min, pat) {
        (Some(a), Some(b), Some(c)) => Some((a, b, c)),
        _ => None,
    }
}

/// `l` is a later version than `c`, comparing major, then minor, then patch.
pub open spec fn version_gt(l: (u64, u64, u64), c: (u64, u64, u64)) -> bool {
    l.0 > c.0 || (l.0 == c.0 && (l.1 > c.1 || (l.1 == c.1 && l.2 > c.2)))
}

/// Whether `latest` names a later version than `current`, when both parse.
pub open spec fn newer(latest: Seq<char>, current: Seq<char>) -> Option<bool> {
    match (parsed_version(latest), parsed_version(current)) {
        (Some(l), Some(c)) => Some(version_gt(l, c)),
        _ => None,
    }
}

/// Whether `latest` is a later version than `current`; `None` when either
/// does not parse.
pub fn is_newer(latest: &str, current: &str) -> (r: Option<bool>)
    ensures
        r == newer(latest@, current@),
{
    match (parse_version(latest), parse_version(current)) {
        (Some(l), Some(c)) => Some(l.0 > c.0 || (l.0 == c.0 && (l.1 > c.1 || (l.1 == c.1 && l.2 > c.2)))),
        _ => None,
    }
}

/// A point in time: whole seconds since the Unix epoch and the nanoseconds
/// past them.
#[derive(Clone, Copy, Debug, PartialEq, Eq, Structural)]
pub struct Timestamp {
    pub secs: i64,
    pub nanos: u32,
}

/// The nanoseconds since the epoch.
pub open spec fn instant(t: Timestamp) -> int {
    t.secs * 1_000_000_000 + t.nanos
}

/// How long a cached release check stays fresh: twenty hours, in nanoseconds.
pub open spec fn refresh_after() -> int {
    20int * 3600 * 1_000_000_000
}

/// The release information cached between runs.
#[derive(Clone, Debug, PartialEq, Eq)]
pub struct VersionInfo {
    pub latest_version: String,
    pub last_checked_at: Timestamp,
    pub dismissed_version: Option<String>,
}

/// Whether the cached release information should be fetched again: it is
/// missing, or it was checked more than twenty hours before `now`.
pub fn needs_refresh(info: Option<&VersionInfo>, now: Timestamp) -> (r: bool)
    ensures
        r == match info {
            None => true,
            Some(i) => instant(i.last_checked_at) < instant(now) - refresh_after(),
        },
{
    match info {
        None => true,
        Some(i) => {
            let last = i.last_checked_at.secs as i128 * 1_000_000_000 + i.last_checked_at.nanos as i128;
            let current = now.secs as i128 * 1_000_000_000 + now.nanos as i128;
            last < current - 72_000_000_000_000
        },
    }
}

/// What to announce about updates.
#[derive(Clone, Debug, PartialEq, Eq)]
pub struct UpdateCheckResult {
    /// Latest version to show as a non-blocking notice (does not respect dismissal).
    pub upgrade_version: Option<String>,
    /// Latest version to show in a popup (respects dismissal).
    pub popup_version: Option<String>,
}

impl Default for UpdateCheckResult {
    fn default() -> (r: Self)
        ensures
            r.upgrade_version is None,
            r.popup_version is None,
    {
        UpdateCheckResult { upgrade_version: None, popup_version: None }
    }
}

/// The version to announce: the cached latest version when it is newer than
/// the running one.
pub open spec fn upgrade_of(info: Option<VersionInfo>, current: Seq<char>) -> Option<Seq<char>> {
    match info {
        Some(i) => if newer(i.latest_version@, current) == Some(true) {
            Some(i.latest_version@)
        } else {
            None
        },
        None => None,
    }
}

/// The version to show in a popup: the announced one, unless the user
/// dismissed exactly that version.
pub open spec fn popup_of(info: Option<VersionInfo>, current: Seq<char>) -> Option<Seq<char>> {
    match upgrade_of(info, current) {
        Some(u) => match info {
            Some(i) => match i.dismissed_version {
                Some(d) => if d@ == u {
                    None
                } else {
                    Some(u)
                },
                None => Some(u),
            },
            None => Some(u),
        },
        None => None,
    }
}

/// The view of an optional string.
pub open spec fn opt_chars(s: Option<String>) -> Option<Seq<char>> {
    match s {
        Some(v) => Some(v@),
        None => None,
    }
}

/// Decides what to announce at startup from the cached release information
/// (`cached`, absent when there is none or it could not be read). Nothing is
/// announced when checks are switched off.
pub fn check_for_updates(check_for_update_on_startup: bool, current_version: &str, cached: Option<&VersionInfo>) -> (r:
    UpdateCheckResult)
    ensures
        !check_for_update_on_startup ==> r.upgrade_version is None && r.popup_version is None,
        check_for_update_on_startup ==> {
            let info = match cached {
                Some(i) => Some(*i),
                None => None,
            };
            &&& opt_chars(r.upgrade_version) == upgrade_of(info, current_version@)
            &&& opt_chars(r.popup_version) == popup_of(info, current_version@)
        },
{
    if !check_for_update_on_startup {
        return UpdateCheckResult::default();
    }
    let upgrade_version = match cached {
        Some(i) => match is_newer(i.latest_version.as_str(), current_version) {
            Some(true) => Some(i.latest_version.clone()),
            _ => None,
        },
        None => None,
    };
    let popup_version = match &upgrade_version {
        Some(u) => {
            let dismissed = match cached {
                Some(i) => match &i.dismissed_version {
                    Some(d) => *d == *u,
                    None => false,
                },
                None => false,
            };
            if dismissed {
                None
            } else {
                Some(u.clone())
            }
        },
        None => None,
    };
    UpdateCheckResult { upgrade_version, popup_version }
}

/// The release information to cache after fetching the latest release tag:
/// its version, checked `now`, keeping the dismissal of the previous cache.
pub fn refreshed_version_info(tag_name: &str, now: Timestamp, previous: Option<VersionInfo>) -> (r: Result<
    VersionInfo,
    InvalidTag,
>)
    ensures
        r is Ok <==> tag_version(tag_name@) is Some,
        match r {
            Ok(info) => {
                &&& Some(info.latest_version@) == tag_version(tag_name@)
                &&& info.last_checked_at == now
                &&& info.dismissed_version == match previous {
                    Some(p) => p.dismissed_version,
                    None => None,
                }
            },
            Err(e) => e.tag@ == tag_name@,
        },
{
    let latest_version = match extract_version_from_latest_tag(tag_name) {
        Ok(v) => v,
        Err(e) => return Err(e),
    };
    let dismissed_version = match previous {
        Some(p) => p.dismissed_version,
        None => None,
    };
    Ok(VersionInfo { latest_version, last_checked_at: now, dismissed_version })
}

} // verus!
