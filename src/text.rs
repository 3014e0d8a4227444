//! Character-level helpers over strings, and the std string operations the
//! rest of the library relies on.

use vstd::prelude::*;

verus! {

/// What `str::trim` leaves of a string: the input without its leading and
/// trailing Unicode whitespace.
pub uninterp spec fn trimmed(s: Seq<char>) -> Seq<char>;

/// `s` starts and ends with a visible ASCII character, `!` to `~`.
pub open spec fn visible_ascii_ends(s: Seq<char>) -> bool {
    s.len() > 0 && '!' <= s[0] && s[0] <= '~' && '!' <= s.last() && s.last() <= '~'
}

/// `true` when `pat` occurs in `s` as a contiguous run of characters.
pub open spec fn has_substring(s: Seq<char>, pat: Seq<char>) -> bool {
    exists|i: int| 0 <= i && i + pat.len() <= s.len() && #[trigger] s.subrange(i, i + pat.len()) == pat
}

/// Relies on `str::chars`: the characters of a string, in order.
#[verifier::external_body]
pub(crate) fn chars_of(s: &str) -> (r: Vec<char>)
    ensures
        r@ == s@,
{
    s.chars().collect()
}

/// Relies on `String: FromIterator<char>`: the string made of these characters.
#[verifier::external_body]
pub(crate) fn string_of(cs: &[char]) -> (r: String)
    ensures
        r@ == cs@,
{
    cs.iter().collect()
}

/// Relies on `str::trim`, which removes leading and trailing Unicode
/// whitespace: an empty string stays empty, and a string that starts and ends
/// with a visible ASCII character (none of which is whitespace) stays as it is.
#[verifier::external_body]
pub(crate) fn trim(s: &str) -> (r: &str)
    ensures
        r@ == trimmed(s@),
        s@.len() == 0 ==> r@.len() == 0,
        visible_ascii_ends(s@) ==> r@ == s@,
{
    s.trim()
}

/// Relies on `str::contains` with a string pattern: whether `pat` occurs in `s`.
#[verifier::external_body]
pub(crate) fn contains(s: &str, pat: &str) -> (r: bool)
    ensures
        r == has_substring(s@, pat@),
{
    s.contains(pat)
}

/// The string with its surrounding whitespace removed, or `None` when nothing
/// is left.
pub open spec fn trimmed_non_empty(s: Seq<char>) -> Option<Seq<char>> {
    if trimmed(s).len() == 0 {
        None
    } else {
        Some(trimmed(s))
    }
}

/// Trims `s` and keeps it only if something remains.
pub fn trim_non_empty(s: &str) -> (r: Option<String>)
    ensures
        match r {
            Some(t) => trimmed_non_empty(s@) == Some(t@),
            None => trimmed_non_empty(s@) is None,
        },
        visible_ascii_ends(s@) ==> trimmed(s@) == s@,
{
    let t = trim(s);
    if t.is_empty() {
        None
    } else {
        Some(t.to_owned())
    }
}

/// [`trim_non_empty`] applied to an optional value.
pub fn trim_optional(s: &Option<String>) -> (r: Option<String>)
    ensures
        match s {
            None => r is None,
            Some(v) => match r {
                Some(t) => trimmed_non_empty(v@) == Some(t@),
                None => trimmed_non_empty(v@) is None,
            },
        },
{
    match s {
        None => None,
        Some(v) => trim_non_empty(v.as_str()),
    }
}

/// Whether two character vectors are equal.
pub(crate) fn chars_eq(a: &Vec<char>, b: &Vec<char>) -> (r: bool)
    ensures
        r == (a@ == b@),
{
    if a.len() != b.len() {
        return false;
    }
    let mut i: usize = 0;
    while i < a.len()
        invariant
            i <= a.len(),
            a.len() == b.len(),
            a@.subrange(0, i as int) == b@.subrange(0, i as int),
        decreases a.len() - i,
    {
        if a[i] != b[i] {
            return false;
        }
        proof {
            assert(a@.subrange(0, i + 1) =~= a@.subrange(0, i as int).push(a@[i as int]));
            assert(b@.subrange(0, i + 1) =~= b@.subrange(0, i as int).push(b@[i as int]));
        }
        i = i + 1;
    }
    proof {
        assert(a@ =~= a@.subrange(0, i as int));
        assert(b@ =~= b@.subrange(0, i as int));
    }
    true
}

/// The pieces of `s` between occurrences of `sep`; there is always at least
/// one piece.
pub open spec fn split_on(s: Seq<char>, sep: char) -> Seq<Seq<char>>
    decreases s.len(),
{
    if s.len() == 0 {
        seq![Seq::<char>::empty()]
    } else {
        let p = split_on(s.drop_last(), sep);
        if s.last() == sep {
            p.push(Seq::<char>::empty())
        } else {
            p.update(p.len() - 1, p.last().push(s.last()))
        }
    }
}

/// The views of a vector of character vectors.
pub open spec fn char_rows(v: Seq<Vec<char>>) -> Seq<Seq<char>> {
    v.map_values(|r: Vec<char>| r@)
}

/// Splits the first `n` characters of `cs` on `sep`.
pub(crate) fn split_prefix(cs: &Vec<char>, n: usize, sep: char) -> (r: Vec<Vec<char>>)
    requires
        n <= cs@.len(),
    ensures
        char_rows(r@) == split_on(cs@.subrange(0, n as int), sep),
{
    let mut pieces: Vec<Vec<char>> = Vec::new();
    let mut cur: Vec<char> = Vec::new();
    let mut i: usize = 0;
    while i < n
        invariant
            i <= n,
            n <= cs@.len(),
            char_rows(pieces@).push(cur@) == split_on(cs@.subrange(0, i as int), sep),
        decreases n - i,
    {
        let c = cs[i];
        proof {
            assert(cs@.subrange(0, i + 1).drop_last() =~= cs@.subrange(0, i as int));
        }
        if c == sep {
            let ghost old_rows = char_rows(pieces@);
            pieces.push(cur);
            cur = Vec::new();
            proof {
                assert(char_rows(pieces@) =~= old_rows.push(pieces@.last()@));
                assert(char_rows(pieces@).push(cur@) =~= split_on(cs@.subrange(0, i + 1), sep));
            }
        } else {
            let ghost old_cur = cur@;
            cur.push(c);
            proof {
                let p = split_on(cs@.subrange(0, i as int), sep);
                assert(char_rows(pieces@).push(cur@) =~= p.update(p.len() - 1, old_cur.push(c)));
            }
        }
        i = i + 1;
    }
    let ghost rows = char_rows(pieces@);
    pieces.push(cur);
    proof {
        assert(char_rows(pieces@) =~= rows.push(pieces@.last()@));
    }
    pieces
}

/// The characters of `cs` from `start` up to `end`.
pub(crate) fn chars_between(cs: &Vec<char>, start: usize, end: usize) -> (r: Vec<char>)
    requires
        start <= end <= cs@.len(),
    ensures
        r@ == cs@.subrange(start as int, end as int),
{
    let mut r: Vec<char> = Vec::new();
    let mut i: usize = start;
    while i < end
        invariant
            start <= i <= end,
            end <= cs@.len(),
            r@ == cs@.subrange(start as int, i as int),
        decreases end - i,
    {
        r.push(cs[i]);
        proof {
            assert(r@ =~= cs@.subrange(start as int, i + 1));
        }
        i = i + 1;
    }
    r
}

} // verus!
