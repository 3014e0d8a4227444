//! The bounded breadth-first walk under one scan root. The walk keeps every
//! directory it has queued, in order; the filesystem work (listing a
//! directory, resolving a path) is done by the caller, which feeds the results
//! back through [`DirWalk::enqueue_dir`] and [`classify_entry`].

use vstd::prelude::*;

use crate::text::{chars_eq, chars_of};

verus! {

/// Directories deeper than this below the root are not visited.
pub const MAX_SCAN_DEPTH: usize = 6;

/// At most this many directories are visited under one root.
pub const MAX_SKILLS_DIRS_PER_ROOT: usize = 2000;

/// The name of a skill definition file, `SKILL.md`.
pub open spec fn skill_filename() -> Seq<char> {
    seq!['S', 'K', 'I', 'L', 'L', '.', 'm', 'd']
}

/// What a directory entry is, as its own file type says (a symbolic link is
/// not followed to tell).
#[derive(Clone, Copy, Debug, PartialEq, Eq, Structural)]
pub enum EntryKind {
    Symlink,
    Dir,
    File,
    Other,
}

/// What the walk does with a directory entry.
#[derive(Clone, Copy, Debug, PartialEq, Eq, Structural)]
pub enum EntryAction {
    /// Ignore the entry.
    Skip,
    /// Resolve the link; if it leads to a directory, queue that directory.
    FollowLink,
    /// Queue the directory.
    Descend,
    /// Parse the entry as a skill definition file.
    Candidate,
}

/// The decision for an entry named `name` of kind `kind`.
pub open spec fn entry_action(name: Seq<char>, kind: EntryKind, follow_symlinks: bool) -> EntryAction {
    if name.len() > 0 && name[0] == '.' {
        EntryAction::Skip
    } else {
        match kind {
            EntryKind::Symlink => if follow_symlinks {
                EntryAction::FollowLink
            } else {
                EntryAction::Skip
            },
            EntryKind::Dir => EntryAction::Descend,
            EntryKind::File => if name == skill_filename() {
                EntryAction::Candidate
            } else {
                EntryAction::Skip
            },
            EntryKind::Other => EntryAction::Skip,
        }
    }
}

/// Decides what to do with one directory entry: hidden entries are skipped,
/// symbolic links are followed only when the root allows it, directories are
/// descended into and files named `SKILL.md` are parsed.
pub fn classify_entry(name: &str, kind: EntryKind, follow_symlinks: bool) -> (r: EntryAction)
    ensures
        r == entry_action(name@, kind, follow_symlinks),
{
    let cs = chars_of(name);
    if cs.len() > 0 && cs[0] == '.' {
        return EntryAction::Skip;
    }
    assert(!(name@.len() > 0 && name@[0] == '.'));
    match kind {
        EntryKind::Symlink => if follow_symlinks {
            EntryAction::FollowLink
        } else {
            EntryAction::Skip
        },
        EntryKind::Dir => EntryAction::Descend,
        EntryKind::File => {
            let lit: &str = "SKILL.md";
            proof {
                reveal_strlit("SKILL.md");
                assert(lit@ =~= skill_filename());
            }
            let expected = chars_of(lit);
            if chars_eq(&cs, &expected) {
                EntryAction::Candidate
            } else {
                EntryAction::Skip
            }
        },
        EntryKind::Other => EntryAction::Skip,
    }
}

/// The state of a walk: every directory queued so far with its depth, in
/// queue order; how many of them have been handed out; and whether a
/// directory was dropped for the visit cap.
pub ghost struct WalkState {
    pub dirs: Seq<(Seq<char>, usize)>,
    pub next: nat,
    pub truncated: bool,
}

/// Some queued directory has path `p`.
pub open spec fn walk_has_dir(w: WalkState, p: Seq<char>) -> bool {
    exists|i: int| 0 <= i < w.dirs.len() && #[trigger] w.dirs[i].0 == p
}

/// The walk's bounds hold: no directory past the depth cap, no more than the
/// visit cap, no directory twice, and the handed-out ones are a prefix.
pub open spec fn walk_wf(w: WalkState) -> bool {
    &&& w.next <= w.dirs.len()
    &&& w.dirs.len() <= MAX_SKILLS_DIRS_PER_ROOT
    &&& forall|i: int| 0 <= i < w.dirs.len() ==> (#[trigger] w.dirs[i]).1 <= MAX_SCAN_DEPTH
    &&& forall|i: int, j: int| 0 <= i < j < w.dirs.len() ==> (#[trigger] w.dirs[i]).0 != (#[trigger] w.dirs[j]).0
}

/// A breadth-first walk under one root, bounded in depth and in the number
/// of directories, that never queues a directory twice.
pub struct DirWalk {
    dirs: Vec<(String, usize)>,
    next: usize,
    truncated: bool,
}

impl View for DirWalk {
    type V = WalkState;

    closed spec fn view(&self) -> WalkState {
        WalkState {
            dirs: self.dirs@.map_values(|e: (String, usize)| (e.0@, e.1)),
            next: self.next as nat,
            truncated: self.truncated,
        }
    }
}

impl DirWalk {
    /// A walk whose queue holds the (canonical) root at depth 0.
    pub fn new(root: String) -> (r: DirWalk)
        ensures
            r@.dirs == seq![(root@, 0usize)],
            r@.next == 0,
            !r@.truncated,
            walk_wf(r@),
    {
        let mut dirs: Vec<(String, usize)> = Vec::new();
        dirs.push((root, 0));
        let r = DirWalk { dirs, next: 0, truncated: false };
        proof {
            assert(r@.dirs =~= seq![(root@, 0usize)]);
        }
        r
    }

    /// Whether a directory was dropped because the visit cap was reached.
    pub fn is_truncated(&self) -> (r: bool)
        ensures
            r == self@.truncated,
    {
        self.truncated
    }

    /// How many directories have been queued, the root included.
    pub fn visited_count(&self) -> (r: usize)
        ensures
            r == self@.dirs.len(),
    {
        proof {
            assert(self@.dirs.len() == self.dirs@.len());
        }
        self.dirs.len()
    }

    /// Whether `path` has been queued.
    fn has_dir(&self, path: &String) -> (r: bool)
        ensures
            r == walk_has_dir(self@, path@),
    {
        let mut i: usize = 0;
        while i < self.dirs.len()
            invariant
                i <= self.dirs@.len(),
                forall|k: int| 0 <= k < i ==> (#[trigger] self@.dirs[k]).0 != path@,
            decreases self.dirs.len() - i,
        {
            proof {
                assert(self@.dirs[i as int].0 == self.dirs@[i as int].0@);
            }
            if self.dirs[i].0 == *path {
                return true;
            }
            i = i + 1;
        }
        false
    }

    /// Offers the (canonical) directory `path`, found at `depth`, to the walk.
    /// Past the depth cap it is ignored; once the visit cap is reached it is
    /// dropped and the walk marked truncated; a directory already queued is
    /// not queued again.
    pub fn enqueue_dir(&mut self, path: String, depth: usize)
        requires
            walk_wf(old(self)@),
        ensures
            walk_wf(final(self)@),
            final(self)@.next == old(self)@.next,
            depth > MAX_SCAN_DEPTH ==> final(self)@ == old(self)@,
            depth <= MAX_SCAN_DEPTH && old(self)@.dirs.len() >= MAX_SKILLS_DIRS_PER_ROOT ==> final(self)@
                == (WalkState { truncated: true, ..old(self)@ }),
            depth <= MAX_SCAN_DEPTH && old(self)@.dirs.len() < MAX_SKILLS_DIRS_PER_ROOT && walk_has_dir(
                old(self)@,
                path@,
            ) ==> final(self)@ == old(self)@,
            depth <= MAX_SCAN_DEPTH && old(self)@.dirs.len() < MAX_SKILLS_DIRS_PER_ROOT && !walk_has_dir(
                old(self)@,
                path@,
            ) ==> final(self)@ == (WalkState { dirs: old(self)@.dirs.push((path@, depth)), ..old(self)@ }),
    {
        if depth > MAX_SCAN_DEPTH {
            return;
        }
        if self.dirs.len() >= MAX_SKILLS_DIRS_PER_ROOT {
            self.truncated = true;
            return;
        }
        if self.has_dir(&path) {
            return;
        }
        let ghost before = self@;
        self.dirs.push((path, depth));
        proof {
            assert(self@.dirs =~= before.dirs.push((path@, depth)));
            assert forall|i: int, j: int| 0 <= i < j < self@.dirs.len() implies (#[trigger] self@.dirs[i]).0
                != (#[trigger] self@.dirs[j]).0 by {
                if j == before.dirs.len() {
                    assert(before.dirs[i] == self@.dirs[i]);
                    if self@.dirs[i].0 == path@ {
                        assert(walk_has_dir(before, path@));
                    }
                } else {
                    assert(before.dirs[i] == self@.dirs[i]);
                    assert(before.dirs[j] == self@.dirs[j]);
                }
            }
        }
    }

    /// Hands out the next queued directory with its depth, in queue order.
    pub fn next_dir(&mut self) -> (r: Option<(String, usize)>)
        requires
            walk_wf(old(self)@),
        ensures
            walk_wf(final(self)@),
            old(self)@.next < old(self)@.dirs.len() ==> r is Some && final(self)@ == (WalkState {
                next: old(self)@.next + 1,
                ..old(self)@
            }),
            old(self)@.next >= old(self)@.dirs.len() ==> r is None && final(self)@ == old(self)@,
            match r {
                Some((path, depth)) => {
                    &&& path@ == old(self)@.dirs[old(self)@.next as int].0
                    &&& depth == old(self)@.dirs[old(self)@.next as int].1
                    &&& depth <= MAX_SCAN_DEPTH
                },
                None => true,
            },
    {
        if self.next >= self.dirs.len() {
            return None;
        }
        let (path, depth) = (self.dirs[self.next].0.clone(), self.dirs[self.next].1);
        proof {
            assert(self@.dirs[self.next as int] == (self.dirs@[self.next as int].0@, self.dirs@[self.next as int].1));
        }
        self.next = self.next + 1;
        Some((path, depth))
    }
}

/// Every walk that keeps its bounds has queued each directory at most once,
/// none past the depth cap and at most the visit cap of them, and has handed
/// out no more directories than it queued: at most the visit cap. Since
/// every directory [`DirWalk::next_dir`] hands out advances `next` by one,
/// a walk hands out at most that many directories before it returns `None`.
pub proof fn lemma_walk_bounded(w: WalkState)
    requires
        walk_wf(w),
    ensures
        w.next <= w.dirs.len() <= MAX_SKILLS_DIRS_PER_ROOT,
        w.next <= MAX_SKILLS_DIRS_PER_ROOT,
        forall|i: int| 0 <= i < w.dirs.len() ==> (#[trigger] w.dirs[i]).1 <= MAX_SCAN_DEPTH,
        forall|i: int, j: int| 0 <= i < j < w.dirs.len() ==> (#[trigger] w.dirs[i]).0 != (#[trigger] w.dirs[j]).0,
{
}

} // verus!
