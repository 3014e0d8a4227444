//! How the command-line program updates itself once the interface exits.

use vstd::prelude::*;

use crate::text::{chars_of, string_of};

verus! {

/// Update action the CLI should perform after the TUI exits.
#[derive(Debug, Clone, Copy, PartialEq, Eq, Structural)]
pub enum UpdateAction {
    /// Update via `npm install -g codex-potter`.
    NpmGlobalLatest,
    /// Update via `bun install -g codex-potter`.
    BunGlobalLatest,
}

/// A character that shell quoting leaves as it is.
pub open spec fn shell_plain_char(c: char) -> bool {
    ('0' <= c && c <= '9') || ('A' <= c && c <= 'Z') || ('a' <= c && c <= 'z') || c == '+' || c == '-' || c
        == '.' || c == '/' || c == ':' || c == '@' || c == ']' || c == '_'
}

/// A word that shell quoting leaves as it is: not empty, and made of plain
/// characters only.
pub open spec fn shell_plain(w: Seq<char>) -> bool {
    w.len() > 0 && forall|j: int| 0 <= j < w.len() ==> shell_plain_char(#[trigger] w[j])
}

/// Words separated by single spaces.
pub open spec fn space_joined(ws: Seq<Seq<char>>) -> Seq<char>
    decreases ws.len(),
{
    if ws.len() == 0 {
        Seq::empty()
    } else if ws.len() == 1 {
        ws[0]
    } else {
        space_joined(ws.drop_last()) + seq![' '] + ws.last()
    }
}

/// The texts of a sequence of string slices.
pub open spec fn word_texts(ws: Seq<&str>) -> Seq<Seq<char>> {
    ws.map_values(|w: &str| w@)
}

/// Some word holds a nul character.
pub open spec fn some_word_has_nul(ws: Seq<Seq<char>>) -> bool {
    exists|i: int| 0 <= i < ws.len() && #[trigger] ws[i].contains('\0')
}

/// Relies on `shlex::try_join`, its error dropped: it fails only on a word holding a nul
/// character; otherwise it quotes each word as needed and separates them with
/// single spaces, and a word of plain characters needs no quoting.
#[verifier::external_body]
fn shell_join(words: &[&str]) -> (r: Option<String>)
    ensures
        r is None == some_word_has_nul(word_texts(words@)),
        (forall|i: int| 0 <= i < words@.len() ==> shell_plain(#[trigger] words@[i]@)) ==> r is Some && r->0@
            == space_joined(word_texts(words@)),
{
    shlex::try_join(words.iter().copied()).ok()
}

/// The words joined by single spaces, with no quoting.
fn join_with_spaces(words: &[&str]) -> (r: String)
    ensures
        r@ == space_joined(word_texts(words@)),
{
    let mut out: Vec<char> = Vec::new();
    let mut i: usize = 0;
    while i < words.len()
        invariant
            i <= words@.len(),
            out@ == space_joined(word_texts(words@).subrange(0, i as int)),
        decreases words.len() - i,
    {
        let ghost before = out@;
        if i > 0 {
            out.push(' ');
        }
        let cs = chars_of(words[i]);
        let mut j: usize = 0;
        let ghost mid = out@;
        while j < cs.len()
            invariant
                j <= cs@.len(),
                out@ == mid + cs@.subrange(0, j as int),
            decreases cs.len() - j,
        {
            out.push(cs[j]);
            proof {
                assert(out@ =~= mid + cs@.subrange(0, j + 1));
            }
            j = j + 1;
        }
        proof {
            let ws = word_texts(words@);
            assert(ws.subrange(0, i + 1).drop_last() =~= ws.subrange(0, i as int));
            assert(cs@.subrange(0, cs@.len() as int) =~= cs@);
            if i == 0 {
                assert(out@ =~= ws.subrange(0, 1)[0]);
            } else {
                assert(out@ =~= before + seq![' '] + ws[i as int]);
            }
        }
        i = i + 1;
    }
    proof {
        assert(word_texts(words@).subrange(0, i as int) =~= word_texts(words@));
    }
    string_of(out.as_slice())
}

/// The program and arguments of an update action.
pub open spec fn action_words(a: UpdateAction) -> Seq<Seq<char>> {
    let program = match a {
        UpdateAction::NpmGlobalLatest => seq!['n', 'p', 'm'],
        UpdateAction::BunGlobalLatest => seq!['b', 'u', 'n'],
    };
    seq![
        program,
        seq!['i', 'n', 's', 't', 'a', 'l', 'l'],
        seq!['-', 'g'],
        seq!['c', 'o', 'd', 'e', 'x', '-', 'p', 'o', 't', 't', 'e', 'r'],
    ]
}

impl UpdateAction {
    /// Returns the list of command-line arguments for invoking the update.
    pub fn command_args(self) -> (r: (&'static str, &'static [&'static str]))
        ensures
            seq![r.0@] + word_texts(r.1@) == action_words(self),
    {
        proof {
            reveal_strlit("npm");
            reveal_strlit("bun");
            reveal_strlit("install");
            reveal_strlit("-g");
            reveal_strlit("codex-potter");
        }
        let program = match self {
            UpdateAction::NpmGlobalLatest => "npm",
            UpdateAction::BunGlobalLatest => "bun",
        };
        let args: &'static [&'static str] = &["install", "-g", "codex-potter"];
        proof {
            assert(word_texts(args@) =~= seq![args@[0]@, args@[1]@, args@[2]@]);
            assert(args@[0]@ =~= seq!['i', 'n', 's', 't', 'a', 'l', 'l']);
            assert(args@[1]@ =~= seq!['-', 'g']);
            assert(args@[2]@ =~= seq!['c', 'o', 'd', 'e', 'x', '-', 'p', 'o', 't', 't', 'e', 'r']);
            assert(program@ =~= action_words(self)[0]);
            assert(seq![program@] + word_texts(args@) =~~= action_words(self));
        }
        (program, args)
    }

    /// Returns a shell-escaped string representation of the update command.
    pub fn command_str(self) -> (r: String)
        ensures
            r@ == space_joined(action_words(self)),
    {
        let (command, args) = self.command_args();
        let mut words: Vec<&str> = Vec::new();
        words.push(command);
        let mut i: usize = 0;
        while i < args.len()
            invariant
                i <= args@.len(),
                words@ == seq![command].add(args@.subrange(0, i as int)),
            decreases args.len() - i,
        {
            words.push(args[i]);
            proof {
                assert(words@ =~= seq![command].add(args@.subrange(0, i + 1)));
            }
            i = i + 1;
        }
        proof {
            assert(args@.subrange(0, i as int) =~= args@);
            assert(word_texts(words@) =~= seq![command@] + word_texts(args@));
            let ws = word_texts(words@);
            assert forall|k: int| 0 <= k < words@.len() implies shell_plain(#[trigger] words@[k]@) by {
                assert(words@[k]@ == ws[k]);
            }
        }
        match shell_join(words.as_slice()) {
            Some(s) => s,
            None => join_with_spaces(words.as_slice()),
        }
    }
}

/// The update action for an installation that a package manager says it
/// manages: npm first, then bun.
pub fn detect_update_action(managed_by_npm: bool, managed_by_bun: bool) -> (r: Option<UpdateAction>)
    ensures
        r == (if managed_by_npm {
            Some(UpdateAction::NpmGlobalLatest)
        } else if managed_by_bun {
            Some(UpdateAction::BunGlobalLatest)
        } else {
            None
        }),
{
    if managed_by_npm {
        Some(UpdateAction::NpmGlobalLatest)
    } else if managed_by_bun {
        Some(UpdateAction::BunGlobalLatest)
    } else {
        None
    }
}

} // verus!
