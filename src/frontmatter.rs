//! Locating the front-matter block at the head of a skill definition file.

use vstd::prelude::*;

use crate::text::{char_rows, chars_of, split_on, split_prefix, string_of};

verus! {

/// The lines of `s` as `str::lines` yields them, before carriage returns are
/// dealt with: a final newline does not open another line, and an empty text
/// has no lines.
pub open spec fn lines_of(s: Seq<char>) -> Seq<Seq<char>> {
    if s.len() == 0 {
        Seq::empty()
    } else if s.last() == '\n' {
        split_on(s.drop_last(), '\n')
    } else {
        split_on(s, '\n')
    }
}

/// `l` without its trailing carriage returns.
pub open spec fn strip_cr(l: Seq<char>) -> Seq<char>
    decreases l.len(),
{
    if l.len() > 0 && l.last() == '\r' {
        strip_cr(l.drop_last())
    } else {
        l
    }
}

/// The lines of `s`, each without trailing carriage returns.
pub open spec fn clean_lines(s: Seq<char>) -> Seq<Seq<char>> {
    lines_of(s).map_values(|l: Seq<char>| strip_cr(l))
}

/// The delimiter line of a front-matter block.
pub open spec fn delimiter() -> Seq<char> {
    seq!['-', '-', '-']
}

/// Lines joined back into text, each followed by a newline.
pub open spec fn join_lines(ls: Seq<Seq<char>>) -> Seq<char>
    decreases ls.len(),
{
    if ls.len() == 0 {
        Seq::empty()
    } else {
        join_lines(ls.drop_last()) + ls.last() + seq!['\n']
    }
}

/// Line `j` closes the block opened by line 0: it is a delimiter and no line
/// between the two is.
pub open spec fn closes_at(ls: Seq<Seq<char>>, j: int) -> bool {
    &&& 1 <= j < ls.len()
    &&& ls[j] == delimiter()
    &&& forall|k: int| 1 <= k < j ==> #[trigger] ls[k] != delimiter()
}

/// The text has a front-matter block: its first line is a delimiter and a
/// later line closes it.
pub open spec fn has_frontmatter(s: Seq<char>) -> bool {
    let ls = clean_lines(s);
    ls.len() > 0 && ls[0] == delimiter() && exists|j: int| closes_at(ls, j)
}

/// The lines of `cs`, as in [`lines_of`].
fn split_lines(cs: &Vec<char>) -> (r: Vec<Vec<char>>)
    ensures
        char_rows(r@) == lines_of(cs@),
{
    if cs.len() == 0 {
        let r: Vec<Vec<char>> = Vec::new();
        proof {
            assert(char_rows(r@) =~= Seq::<Seq<char>>::empty());
        }
        return r;
    }
    if cs[cs.len() - 1] == '\n' {
        let r = split_prefix(cs, cs.len() - 1, '\n');
        proof {
            assert(cs@.subrange(0, cs@.len() - 1) =~= cs@.drop_last());
        }
        r
    } else {
        let r = split_prefix(cs, cs.len(), '\n');
        proof {
            assert(cs@.subrange(0, cs@.len() as int) =~= cs@);
        }
        r
    }
}

/// `line` without its trailing carriage returns.
fn strip_line(line: &Vec<char>) -> (r: Vec<char>)
    ensures
        r@ == strip_cr(line@),
{
    let mut e: usize = line.len();
    proof {
        assert(line@.subrange(0, e as int) =~= line@);
    }
    while e > 0 && line[e - 1] == '\r'
        invariant
            e <= line@.len(),
            strip_cr(line@) == strip_cr(line@.subrange(0, e as int)),
        decreases e,
    {
        proof {
            assert(line@.subrange(0, e as int).drop_last() =~= line@.subrange(0, e - 1));
        }
        e = e - 1;
    }
    let mut r: Vec<char> = Vec::new();
    let mut i: usize = 0;
    while i < e
        invariant
            i <= e,
            e <= line@.len(),
            r@ == line@.subrange(0, i as int),
        decreases e - i,
    {
        r.push(line[i]);
        proof {
            assert(r@ =~= line@.subrange(0, i + 1));
        }
        i = i + 1;
    }
    proof {
        let t = line@.subrange(0, e as int);
        assert(!(t.len() > 0 && t.last() == '\r'));
    }
    r
}

/// Whether `line` is exactly the delimiter.
fn is_delimiter(line: &Vec<char>) -> (r: bool)
    ensures
        r == (line@ == delimiter()),
{
    let r = line.len() == 3 && line[0] == '-' && line[1] == '-' && line[2] == '-';
    proof {
        if r {
            assert(line@ =~= delimiter());
        }
    }
    r
}

/// The front-matter block of a skill definition file: the lines after a first
/// line `---` up to the next line `---`, each without trailing carriage returns
/// and followed by a newline. There is none when the first line is not a
/// delimiter or no later line closes the block.
pub fn extract_frontmatter(contents: &str) -> (r: Option<String>)
    ensures
        r is Some <==> has_frontmatter(contents@),
        forall|j: int| #[trigger] closes_at(clean_lines(contents@), j) && r is Some
            ==> r->0@ == join_lines(clean_lines(contents@).subrange(1, j)),
{
    let cs = chars_of(contents);
    let lines = split_lines(&cs);
    let ghost ls = clean_lines(contents@);
    proof {
        assert(ls.len() == lines@.len());
        assert forall|k: int| 0 <= k < ls.len() implies #[trigger] ls[k] == strip_cr(lines@[k]@) by {
            assert(char_rows(lines@)[k] == lines@[k]@);
        }
    }
    if lines.len() == 0 {
        return None;
    }
    let first = strip_line(&lines[0]);
    if !is_delimiter(&first) {
        return None;
    }
    let mut yaml: Vec<char> = Vec::new();
    let mut k: usize = 1;
    proof {
        assert(ls.subrange(1, 1) =~= Seq::<Seq<char>>::empty());
    }
    while k < lines.len()
        invariant
            1 <= k <= lines@.len(),
            ls == clean_lines(contents@),
            ls.len() == lines@.len(),
            ls[0] == delimiter(),
            forall|m: int| 0 <= m < ls.len() ==> #[trigger] ls[m] == strip_cr(lines@[m]@),
            forall|m: int| 1 <= m < k ==> #[trigger] ls[m] != delimiter(),
            yaml@ == join_lines(ls.subrange(1, k as int)),
        decreases lines.len() - k,
    {
        let line = strip_line(&lines[k]);
        if is_delimiter(&line) {
            proof {
                assert(closes_at(ls, k as int));
                assert forall|j: int| #[trigger] closes_at(ls, j) implies j == k by {
                    if j < k {
                        assert(ls[j] != delimiter());
                    } else if j > k {
                        assert(ls[k as int] != delimiter());
                    }
                }
            }
            let found = string_of(yaml.as_slice());
            proof {
                assert(found@ == join_lines(ls.subrange(1, k as int)));
                assert(has_frontmatter(contents@));
            }
            return Some(found);
        }
        let ghost before = yaml@;
        let mut i: usize = 0;
        while i < line.len()
            invariant
                i <= line@.len(),
                yaml@ == before + line@.subrange(0, i as int),
            decreases line.len() - i,
        {
            yaml.push(line[i]);
            proof {
                assert(yaml@ =~= before + line@.subrange(0, i + 1));
            }
            i = i + 1;
        }
        yaml.push('\n');
        proof {
            assert(line@.subrange(0, line@.len() as int) =~= line@);
            assert(ls.subrange(1, k + 1).drop_last() =~= ls.subrange(1, k as int));
            assert(yaml@ =~= join_lines(ls.subrange(1, k + 1)));
        }
        k = k + 1;
    }
    proof {
        assert forall|j: int| !closes_at(ls, j) by {
            if closes_at(ls, j) {
                assert(ls[j] != delimiter());
            }
        }
    }
    None
}

} // verus!
