//! The directories a discovery run scans, in scan order, each with its scope
//! and whether symbolic links are followed under it.

use vstd::prelude::*;

use crate::skills::SkillScope;

verus! {

/// What `Path::join` gives for `base` and `child` on Unix: an absolute
/// `child` replaces `base`; otherwise `child` follows `base`, with a `/`
/// between them unless `base` is empty or already ends in one.
pub open spec fn joined_path(base: Seq<char>, child: Seq<char>) -> Seq<char> {
    if child.len() > 0 && child[0] == '/' {
        child
    } else if base.len() > 0 && base.last() != '/' {
        base + seq!['/'] + child
    } else {
        base + child
    }
}

/// Relies on `std::path::Path::join`, as [`joined_path`] states it. Both
/// arguments are valid UTF-8, so the joined path is too and the lossy
/// conversion keeps it as it is.
#[verifier::external_body]
fn join_path(base: &str, child: &str) -> (r: String)
    ensures
        r@ == joined_path(base@, child@),
{
    std::path::Path::new(base).join(child).to_string_lossy().into_owned()
}

/// One directory to scan.
#[derive(Clone, Debug, PartialEq, Eq)]
pub struct SkillRoot {
    pub path: String,
    pub scope: SkillScope,
    pub follow_symlinks: bool,
}

pub open spec fn codex_dir_name() -> Seq<char> {
    seq!['.', 'c', 'o', 'd', 'e', 'x']
}

pub open spec fn skills_dir_name() -> Seq<char> {
    seq!['s', 'k', 'i', 'l', 'l', 's']
}

pub open spec fn system_dir_name() -> Seq<char> {
    seq!['.', 's', 'y', 's', 't', 'e', 'm']
}

/// The system-wide configuration directory.
pub open spec fn admin_config_dir() -> Seq<char> {
    seq!['/', 'e', 't', 'c', '/', 'c', 'o', 'd', 'e', 'x']
}

/// `<dir>/.codex/skills`.
pub open spec fn repo_skills_path(dir: Seq<char>) -> Seq<char> {
    joined_path(joined_path(dir, codex_dir_name()), skills_dir_name())
}

fn codex_name() -> (r: &'static str)
    ensures
        r@ == codex_dir_name(),
{
    proof {
        reveal_strlit(".codex");
    }
    ".codex"
}

fn skills_name() -> (r: &'static str)
    ensures
        r@ == skills_dir_name(),
{
    proof {
        reveal_strlit("skills");
    }
    "skills"
}

/// The index of the first ancestor, counting from the working directory,
/// that holds a version-control marker.
pub open spec fn first_marked(has_git: Seq<bool>, i: int) -> bool {
    0 <= i < has_git.len() && has_git[i] && forall|k: int| 0 <= k < i ==> !#[trigger] has_git[k]
}

/// Given, for each ancestor of the working directory from the nearest (the
/// directory itself) outwards, whether it holds a `.git` entry, finds the
/// repository root: the nearest ancestor that does.
pub fn find_repo_root(has_git: &Vec<bool>) -> (r: Option<usize>)
    ensures
        match r {
            Some(i) => first_marked(has_git@, i as int),
            None => forall|k: int| 0 <= k < has_git@.len() ==> !#[trigger] has_git@[k],
        },
{
    let mut i: usize = 0;
    while i < has_git.len()
        invariant
            i <= has_git@.len(),
            forall|k: int| 0 <= k < i ==> !#[trigger] has_git@[k],
        decreases has_git.len() - i,
    {
        if has_git[i] {
            return Some(i);
        }
        i = i + 1;
    }
    None
}

/// The ancestors searched for repository skills, nearest first: up to and
/// including the repository root, or all of them when there is none.
/// `ancestors` lists the working directory and its ancestors, nearest first;
/// `has_git` says which of them hold a `.git` entry.
pub fn repo_dirs_between(ancestors: &Vec<String>, has_git: &Vec<bool>) -> (r: Vec<String>)
    requires
        ancestors@.len() == has_git@.len(),
    ensures
        forall|i: int| first_marked(has_git@, i) ==> r@.len() == i + 1,
        (forall|k: int| 0 <= k < has_git@.len() ==> !#[trigger] has_git@[k]) ==> r@.len() == ancestors@.len(),
        r@.len() <= ancestors@.len(),
        forall|k: int| 0 <= k < r@.len() ==> #[trigger] r@[k]@ == ancestors@[k]@,
{
    let n = has_git.len();
    let end = match find_repo_root(has_git) {
        Some(i) => {
            assert(i < n);
            i + 1
        },
        None => ancestors.len(),
    };
    proof {
        assert forall|i: int| first_marked(has_git@, i) implies end == i + 1 by {
            let found = choose|j: int| first_marked(has_git@, j) && j + 1 == end;
            if found < i {
                assert(!has_git@[found]);
            } else if found > i {
                assert(!has_git@[i]);
            }
        }
    }
    let mut r: Vec<String> = Vec::new();
    let mut k: usize = 0;
    while k < end
        invariant
            k <= end <= ancestors@.len(),
            r@.len() == k,
            forall|m: int| 0 <= m < k ==> #[trigger] r@[m]@ == ancestors@[m]@,
        decreases end - k,
    {
        r.push(ancestors[k].clone());
        k = k + 1;
    }
    r
}

/// `<dir>/.codex/skills`, the repository skills directory under an ancestor.
pub fn repo_skill_dir(dir: &str) -> (r: String)
    ensures
        r@ == repo_skills_path(dir@),
{
    let codex = join_path(dir, codex_name());
    join_path(codex.as_str(), skills_name())
}

/// The home configuration directory: the override when it is set and not
/// empty, else `.codex` under the home directory, if that is known.
pub fn find_codex_home(env_override: Option<String>, home: Option<String>) -> (r: Option<String>)
    ensures
        match env_override {
            Some(v) if v@.len() > 0 => r == Some(v),
            _ => match home {
                Some(h) => r is Some && r->0@ == joined_path(h@, codex_dir_name()),
                None => r is None,
            },
        },
{
    if let Some(v) = env_override {
        if !v.as_str().is_empty() {
            return Some(v);
        }
    }
    match home {
        Some(h) => Some(join_path(h.as_str(), codex_name())),
        None => None,
    }
}

/// `root` is a scan root at `path` with this scope and link policy.
pub open spec fn root_is(root: SkillRoot, path: Seq<char>, scope: SkillScope, follow: bool) -> bool {
    root.path@ == path && root.scope == scope && root.follow_symlinks == follow
}

/// The scan roots in scan order: the repository skills directories that
/// exist, nearest first; then, under the home configuration directory,
/// `skills/.system` (links not followed) and `skills`; then the system-wide
/// `/etc/codex/skills`, where the platform has that system-wide location
/// (`system_wide`).
pub fn skill_roots(repo_skill_dirs: &Vec<String>, codex_home: &Option<String>, system_wide: bool) -> (r: Vec<SkillRoot>)
    ensures
        r@.len() == repo_skill_dirs@.len() + (if codex_home is Some { 2int } else { 0 }) + (if system_wide { 1int } else { 0 }),
        forall|k: int| 0 <= k < repo_skill_dirs@.len() ==> root_is(#[trigger] r@[k], repo_skill_dirs@[k]@, SkillScope::Repo, true),
        match codex_home {
            Some(h) => {
                let user = joined_path(h@, skills_dir_name());
                &&& root_is(r@[repo_skill_dirs@.len() as int], joined_path(user, system_dir_name()), SkillScope::System, false)
                &&& root_is(r@[repo_skill_dirs@.len() as int + 1], user, SkillScope::User, true)
            },
            None => true,
        },
        system_wide ==> root_is(r@.last(), joined_path(admin_config_dir(), skills_dir_name()), SkillScope::Admin, true),
{
    let mut r: Vec<SkillRoot> = Vec::new();
    let mut k: usize = 0;
    while k < repo_skill_dirs.len()
        invariant
            k <= repo_skill_dirs@.len(),
            r@.len() == k,
            forall|m: int| 0 <= m < k ==> root_is(#[trigger] r@[m], repo_skill_dirs@[m]@, SkillScope::Repo, true),
        decreases repo_skill_dirs.len() - k,
    {
        r.push(SkillRoot { path: repo_skill_dirs[k].clone(), scope: SkillScope::Repo, follow_symlinks: true });
        k = k + 1;
    }
    if let Some(h) = codex_home {
        let user = join_path(h.as_str(), skills_name());
        let system_name: &str = ".system";
        proof {
            reveal_strlit(".system");
            assert(system_name@ =~= system_dir_name());
        }
        let system = join_path(user.as_str(), system_name);
        r.push(SkillRoot { path: system, scope: SkillScope::System, follow_symlinks: false });
        r.push(SkillRoot { path: user, scope: SkillScope::User, follow_symlinks: true });
    }
    if system_wide {
        let admin_dir: &str = "/etc/codex";
        proof {
            reveal_strlit("/etc/codex");
            assert(admin_dir@ =~= admin_config_dir());
        }
        let admin = join_path(admin_dir, skills_name());
        r.push(SkillRoot { path: admin, scope: SkillScope::Admin, follow_symlinks: true });
    }
    r
}

} // verus!
