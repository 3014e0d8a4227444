//! Skill records and the aggregation step: first-seen deduplication by
//! canonical path, then a total order by scope, name and path.

use vstd::prelude::*;

use crate::text::{char_rows, chars_eq, chars_of, split_on, split_prefix};

verus! {

/// Where a skill was found; earlier variants take precedence.
#[derive(Clone, Copy, Debug, PartialEq, Eq, Hash, Structural)]
pub enum SkillScope {
    Repo,
    User,
    System,
    Admin,
}

/// Precedence rank of a scope: lower ranks sort first.
pub open spec fn scope_rank(scope: SkillScope) -> nat {
    match scope {
        SkillScope::Repo => 0,
        SkillScope::User => 1,
        SkillScope::System => 2,
        SkillScope::Admin => 3,
    }
}

impl SkillScope {
    /// Precedence rank of this scope.
    pub fn rank(self) -> (r: u8)
        ensures
            r as nat == scope_rank(self),
    {
        match self {
            SkillScope::Repo => 0,
            SkillScope::User => 1,
            SkillScope::System => 2,
            SkillScope::Admin => 3,
        }
    }
}

/// Display overrides read from a skill's overlay descriptor.
#[derive(Clone, Debug, PartialEq, Eq, Default)]
pub struct SkillInterface {
    pub display_name: Option<String>,
    pub short_description: Option<String>,
}

/// One discovered skill. `path` is the canonical path of its definition file
/// and identifies it.
#[derive(Clone, Debug, PartialEq, Eq)]
pub struct SkillMetadata {
    pub name: String,
    pub description: String,
    pub short_description: Option<String>,
    pub interface: Option<SkillInterface>,
    pub path: String,
    pub scope: SkillScope,
}

/// The name shown for a skill: the overlay's display name, else its name.
pub open spec fn display_name_of(s: SkillMetadata) -> Seq<char> {
    match s.interface {
        Some(i) => match i.display_name {
            Some(d) => d@,
            None => s.name@,
        },
        None => s.name@,
    }
}

/// The description shown for a skill: the overlay's short description, else
/// the front matter's short description, else the full description.
pub open spec fn display_description_of(s: SkillMetadata) -> Seq<char> {
    let fallback = match s.short_description {
        Some(d) => d@,
        None => s.description@,
    };
    match s.interface {
        Some(i) => match i.short_description {
            Some(d) => d@,
            None => fallback,
        },
        None => fallback,
    }
}

impl SkillMetadata {
    pub fn display_name(&self) -> (r: &str)
        ensures
            r@ == display_name_of(*self),
    {
        match &self.interface {
            Some(i) => match &i.display_name {
                Some(d) => d.as_str(),
                None => self.name.as_str(),
            },
            None => self.name.as_str(),
        }
    }

    pub fn display_description(&self) -> (r: &str)
        ensures
            r@ == display_description_of(*self),
    {
        let fallback = match &self.short_description {
            Some(d) => d.as_str(),
            None => self.description.as_str(),
        };
        match &self.interface {
            Some(i) => match &i.short_description {
                Some(d) => d.as_str(),
                None => fallback,
            },
            None => fallback,
        }
    }
}

/// Lexicographic order on character sequences, by code point. For UTF-8
/// strings this is the same order as comparing their bytes; skill names are
/// ordered this way.
pub open spec fn chars_lt(a: Seq<char>, b: Seq<char>) -> bool
    decreases a.len(),
{
    if a.len() == 0 {
        b.len() > 0
    } else if b.len() == 0 {
        false
    } else if a[0] == b[0] {
        chars_lt(a.drop_first(), b.drop_first())
    } else {
        a[0] < b[0]
    }
}

/// The `/`-separated components of a path. For a canonical absolute path
/// the first one is empty and stands for the root.
pub open spec fn path_components(p: Seq<char>) -> Seq<Seq<char>> {
    split_on(p, '/')
}

/// Lexicographic order on sequences of components, each compared in
/// [`chars_lt`] order. On canonical paths this is the order of `Path::cmp`,
/// which compares paths component by component.
pub open spec fn components_lt(a: Seq<Seq<char>>, b: Seq<Seq<char>>) -> bool
    decreases a.len(),
{
    if a.len() == 0 {
        b.len() > 0
    } else if b.len() == 0 {
        false
    } else if a[0] == b[0] {
        components_lt(a.drop_first(), b.drop_first())
    } else {
        chars_lt(a[0], b[0])
    }
}

/// `a` sorts strictly before `b`: by scope rank, then name, then path, with
/// paths compared component by component.
pub open spec fn skill_lt(a: SkillMetadata, b: SkillMetadata) -> bool {
    scope_rank(a.scope) < scope_rank(b.scope) || (scope_rank(a.scope) == scope_rank(b.scope) && (
    chars_lt(a.name@, b.name@) || (a.name@ == b.name@ && components_lt(
        path_components(a.path@),
        path_components(b.path@),
    ))))
}

/// Every adjacent pair is in order.
pub open spec fn sorted_skills(s: Seq<SkillMetadata>) -> bool {
    forall|i: int| 0 <= i && i + 1 < s.len() ==> !skill_lt(#[trigger] s[i + 1], s[i])
}

/// Some element before index `n` has this path.
pub open spec fn path_seen_before(s: Seq<SkillMetadata>, n: int, p: Seq<char>) -> bool {
    exists|k: int| 0 <= k < n && #[trigger] s[k].path@ == p
}

/// The elements of `s` whose path did not occur earlier, in their order.
pub open spec fn dedup_by_path(s: Seq<SkillMetadata>) -> Seq<SkillMetadata>
    decreases s.len(),
{
    if s.len() == 0 {
        Seq::empty()
    } else {
        let d = dedup_by_path(s.drop_last());
        if path_seen_before(s, s.len() - 1, s.last().path@) {
            d
        } else {
            d.push(s.last())
        }
    }
}

/// No two elements share a path.
pub open spec fn unique_paths(s: Seq<SkillMetadata>) -> bool {
    forall|i: int, j: int| 0 <= i < j < s.len() ==> #[trigger] s[i].path@ != #[trigger] s[j].path@
}

proof fn lemma_chars_lt_irreflexive(a: Seq<char>)
    ensures
        !chars_lt(a, a),
    decreases a.len(),
{
    if a.len() > 0 {
        lemma_chars_lt_irreflexive(a.drop_first());
    }
}

proof fn lemma_chars_lt_asymmetric(a: Seq<char>, b: Seq<char>)
    ensures
        chars_lt(a, b) ==> !chars_lt(b, a),
    decreases a.len(),
{
    if a.len() > 0 && b.len() > 0 && a[0] == b[0] {
        lemma_chars_lt_asymmetric(a.drop_first(), b.drop_first());
    }
}

proof fn lemma_chars_lt_total(a: Seq<char>, b: Seq<char>)
    ensures
        a != b ==> chars_lt(a, b) || chars_lt(b, a),
    decreases a.len(),
{
    if a.len() > 0 && b.len() > 0 && a[0] == b[0] {
        lemma_chars_lt_total(a.drop_first(), b.drop_first());
        if a != b {
            assert(a.drop_first() != b.drop_first()) by {
                if a.drop_first() == b.drop_first() {
                    assert(a =~= seq![a[0]] + a.drop_first());
                    assert(b =~= seq![b[0]] + b.drop_first());
                }
            }
        }
    } else if a.len() > 0 && b.len() > 0 {
    } else if a.len() == 0 && b.len() == 0 {
        assert(a =~= b);
    }
}

proof fn lemma_components_lt_irreflexive(a: Seq<Seq<char>>)
    ensures
        !components_lt(a, a),
    decreases a.len(),
{
    if a.len() > 0 {
        lemma_components_lt_irreflexive(a.drop_first());
    }
}

proof fn lemma_components_lt_asymmetric(a: Seq<Seq<char>>, b: Seq<Seq<char>>)
    ensures
        components_lt(a, b) ==> !components_lt(b, a),
    decreases a.len(),
{
    if a.len() > 0 && b.len() > 0 {
        if a[0] == b[0] {
            lemma_components_lt_asymmetric(a.drop_first(), b.drop_first());
        } else {
            lemma_chars_lt_asymmetric(a[0], b[0]);
        }
    }
}

proof fn lemma_components_lt_total(a: Seq<Seq<char>>, b: Seq<Seq<char>>)
    ensures
        a != b ==> components_lt(a, b) || components_lt(b, a),
    decreases a.len(),
{
    if a.len() > 0 && b.len() > 0 && a[0] == b[0] {
        lemma_components_lt_total(a.drop_first(), b.drop_first());
        if a != b {
            assert(a.drop_first() != b.drop_first()) by {
                if a.drop_first() == b.drop_first() {
                    assert(a =~= seq![a[0]] + a.drop_first());
                    assert(b =~= seq![b[0]] + b.drop_first());
                }
            }
        }
    } else if a.len() > 0 && b.len() > 0 {
        lemma_chars_lt_total(a[0], b[0]);
    } else if a.len() == 0 && b.len() == 0 {
        assert(a =~= b);
    }
}

/// The skill order is a strict total order on records that differ in scope,
/// name or path components.
pub proof fn lemma_skill_lt_strict_total(a: SkillMetadata, b: SkillMetadata)
    ensures
        !skill_lt(a, a),
        skill_lt(a, b) ==> !skill_lt(b, a),
        a.scope != b.scope || a.name@ != b.name@ || path_components(a.path@) != path_components(b.path@)
            ==> skill_lt(a, b) || skill_lt(b, a),
{
    let (pa, pb) = (path_components(a.path@), path_components(b.path@));
    lemma_chars_lt_irreflexive(a.name@);
    lemma_components_lt_irreflexive(pa);
    lemma_chars_lt_asymmetric(a.name@, b.name@);
    lemma_components_lt_asymmetric(pa, pb);
    lemma_chars_lt_total(a.name@, b.name@);
    lemma_components_lt_total(pa, pb);
}

/// Compares two character vectors in [`chars_lt`] order.
fn chars_less(a: &Vec<char>, b: &Vec<char>) -> (r: bool)
    ensures
        r == chars_lt(a@, b@),
{
    let mut i: usize = 0;
    proof {
        assert(a@.subrange(0, a@.len() as int) =~= a@);
        assert(b@.subrange(0, b@.len() as int) =~= b@);
    }
    while i < a.len() && i < b.len() && a[i] == b[i]
        invariant
            i <= a.len(),
            i <= b.len(),
            a@.subrange(0, i as int) == b@.subrange(0, i as int),
            chars_lt(a@, b@) == chars_lt(a@.subrange(i as int, a@.len() as int), b@.subrange(i as int, b@.len() as int)),
        decreases a.len() - i,
    {
        proof {
            let sa = a@.subrange(i as int, a@.len() as int);
            let sb = b@.subrange(i as int, b@.len() as int);
            assert(sa.drop_first() =~= a@.subrange(i + 1, a@.len() as int));
            assert(sb.drop_first() =~= b@.subrange(i + 1, b@.len() as int));
            assert(a@.subrange(0, i + 1) =~= a@.subrange(0, i as int).push(a@[i as int]));
            assert(b@.subrange(0, i + 1) =~= b@.subrange(0, i as int).push(b@[i as int]));
        }
        i = i + 1;
    }
    if i == a.len() {
        i < b.len()
    } else if i == b.len() {
        false
    } else {
        a[i] < b[i]
    }
}

/// Whether `a` sorts strictly before `b`.
pub fn skill_less(a: &SkillMetadata, b: &SkillMetadata) -> (r: bool)
    ensures
        r == skill_lt(*a, *b),
{
    let ra = a.scope.rank();
    let rb = b.scope.rank();
    if ra != rb {
        return ra < rb;
    }
    let an = chars_of(a.name.as_str());
    let bn = chars_of(b.name.as_str());
    if chars_less(&an, &bn) {
        return true;
    }
    if chars_less(&bn, &an) {
        return false;
    }
    proof {
        lemma_chars_lt_total(a.name@, b.name@);
    }
    let ap = chars_of(a.path.as_str());
    let bp = chars_of(b.path.as_str());
    let ac = split_prefix(&ap, ap.len(), '/');
    let bc = split_prefix(&bp, bp.len(), '/');
    proof {
        assert(ap@.subrange(0, ap@.len() as int) =~= ap@);
        assert(bp@.subrange(0, bp@.len() as int) =~= bp@);
    }
    components_less(&ac, &bc)
}

/// Compares two component lists in [`components_lt`] order.
fn components_less(a: &Vec<Vec<char>>, b: &Vec<Vec<char>>) -> (r: bool)
    ensures
        r == components_lt(char_rows(a@), char_rows(b@)),
{
    let ghost ra = char_rows(a@);
    let ghost rb = char_rows(b@);
    let mut i: usize = 0;
    proof {
        assert(ra.subrange(0, ra.len() as int) =~= ra);
        assert(rb.subrange(0, rb.len() as int) =~= rb);
    }
    while i < a.len() && i < b.len() && chars_eq(&a[i], &b[i])
        invariant
            i <= a.len(),
            i <= b.len(),
            ra == char_rows(a@),
            rb == char_rows(b@),
            components_lt(ra, rb) == components_lt(ra.subrange(i as int, ra.len() as int), rb.subrange(i as int, rb.len() as int)),
        decreases a.len() - i,
    {
        proof {
            let sa = ra.subrange(i as int, ra.len() as int);
            let sb = rb.subrange(i as int, rb.len() as int);
            assert(sa.drop_first() =~= ra.subrange(i + 1, ra.len() as int));
            assert(sb.drop_first() =~= rb.subrange(i + 1, rb.len() as int));
            assert(sa[0] == a@[i as int]@);
            assert(sb[0] == b@[i as int]@);
        }
        i = i + 1;
    }
    if i == a.len() {
        i < b.len()
    } else if i == b.len() {
        false
    } else {
        proof {
            assert(ra.subrange(i as int, ra.len() as int)[0] == a@[i as int]@);
            assert(rb.subrange(i as int, rb.len() as int)[0] == b@[i as int]@);
        }
        chars_less(&a[i], &b[i])
    }
}


/// `x` is the element of `s` at `f`, and no element before it has its path.
pub open spec fn first_occurrence_at(s: Seq<SkillMetadata>, f: int, x: SkillMetadata) -> bool {
    0 <= f < s.len() && s[f] == x && !path_seen_before(s, f, x.path@)
}

/// `x` is the first of the elements of `s` that carry its path.
pub open spec fn is_first_occurrence(s: Seq<SkillMetadata>, x: SkillMetadata) -> bool {
    exists|f: int| #[trigger] first_occurrence_at(s, f, x)
}

/// Deduplication by path keeps, for every path in the input, exactly the
/// earliest record that carries it: its paths are unique, each of its records
/// is a first occurrence, every first occurrence is kept, and it covers every
/// path of the input.
pub proof fn lemma_dedup_keeps_first(s: Seq<SkillMetadata>)
    ensures
        unique_paths(dedup_by_path(s)),
        forall|x: SkillMetadata| #[trigger] dedup_by_path(s).contains(x) ==> is_first_occurrence(s, x),
        forall|i: int|
            0 <= i < s.len() && !path_seen_before(s, i, s[i].path@) ==> #[trigger] dedup_by_path(s).contains(s[i]),
        forall|p: Seq<char>|
            #[trigger] path_seen_before(s, s.len() as int, p) <==> path_seen_before(
                dedup_by_path(s),
                dedup_by_path(s).len() as int,
                p,
            ),
    decreases s.len(),
{
    if s.len() > 0 {
        let t = s.drop_last();
        let n = s.len() - 1;
        let last = s.last();
        lemma_dedup_keeps_first(t);
        let dt = dedup_by_path(t);
        let d = dedup_by_path(s);
        assert forall|m: int, p: Seq<char>| 0 <= m <= n implies path_seen_before(s, m, p) == path_seen_before(t, m, p) by {
            if path_seen_before(s, m, p) {
                let k = choose|k: int| 0 <= k < m && #[trigger] s[k].path@ == p;
                assert(t[k] == s[k]);
            }
            if path_seen_before(t, m, p) {
                let k = choose|k: int| 0 <= k < m && #[trigger] t[k].path@ == p;
                assert(t[k] == s[k]);
            }
        }
        assert forall|x: SkillMetadata| is_first_occurrence(t, x) implies is_first_occurrence(s, x) by {
            let f = choose|f: int| #[trigger] first_occurrence_at(t, f, x);
            assert(first_occurrence_at(s, f, x));
        }
        if path_seen_before(s, n, last.path@) {
            assert(d == dt);
            assert forall|i: int| 0 <= i < s.len() && !path_seen_before(s, i, s[i].path@) implies #[trigger] d.contains(s[i]) by {
                if i < n {
                    assert(t[i] == s[i]);
                    assert(dt.contains(t[i]));
                }
            }
            assert forall|p: Seq<char>| #[trigger] path_seen_before(s, s.len() as int, p) <==> path_seen_before(d, d.len() as int, p) by {
                if path_seen_before(s, s.len() as int, p) {
                    let k = choose|k: int| 0 <= k < s.len() && #[trigger] s[k].path@ == p;
                    if k < n {
                        assert(path_seen_before(t, n, p));
                    } else {
                        assert(path_seen_before(t, n, p));
                    }
                }
                if path_seen_before(d, d.len() as int, p) {
                    assert(path_seen_before(t, n, p));
                    let k = choose|k: int| 0 <= k < n && #[trigger] t[k].path@ == p;
                    assert(s[k] == t[k]);
                }
            }
        } else {
            assert(d == dt.push(last));
            assert(!path_seen_before(dt, dt.len() as int, last.path@));
            assert forall|i: int, j: int| 0 <= i < j < d.len() implies #[trigger] d[i].path@ != #[trigger] d[j].path@ by {
                if j == dt.len() {
                    assert(d[i] == dt[i]);
                    if d[i].path@ == d[j].path@ {
                        assert(path_seen_before(dt, dt.len() as int, last.path@));
                    }
                } else {
                    assert(d[i] == dt[i]);
                    assert(d[j] == dt[j]);
                }
            }
            assert forall|x: SkillMetadata| #[trigger] d.contains(x) implies is_first_occurrence(s, x) by {
                let k = choose|k: int| 0 <= k < d.len() && d[k] == x;
                if k < dt.len() {
                    assert(dt[k] == x);
                    assert(dt.contains(x));
                } else {
                    assert(first_occurrence_at(s, n, x));
                }
            }
            assert forall|i: int| 0 <= i < s.len() && !path_seen_before(s, i, s[i].path@) implies #[trigger] d.contains(s[i]) by {
                if i < n {
                    assert(t[i] == s[i]);
                    assert(dt.contains(t[i]));
                    let k = choose|k: int| 0 <= k < dt.len() && dt[k] == t[i];
                    assert(d[k] == dt[k]);
                } else {
                    assert(d[dt.len() as int] == last);
                }
            }
            assert forall|p: Seq<char>| #[trigger] path_seen_before(s, s.len() as int, p) <==> path_seen_before(d, d.len() as int, p) by {
                if path_seen_before(s, s.len() as int, p) {
                    let k = choose|k: int| 0 <= k < s.len() && #[trigger] s[k].path@ == p;
                    if k < n {
                        assert(path_seen_before(t, n, p));
                        let m = choose|m: int| 0 <= m < dt.len() && #[trigger] dt[m].path@ == p;
                        assert(d[m] == dt[m]);
                    } else {
                        assert(d[dt.len() as int] == last);
                    }
                }
                if path_seen_before(d, d.len() as int, p) {
                    let k = choose|k: int| 0 <= k < d.len() && #[trigger] d[k].path@ == p;
                    if k < dt.len() {
                        assert(d[k] == dt[k]);
                        assert(path_seen_before(t, n, p));
                        let m = choose|m: int| 0 <= m < n && #[trigger] t[m].path@ == p;
                        assert(s[m] == t[m]);
                    } else {
                        assert(s[n] == last);
                    }
                }
            }
        }
    }
}

/// Keeps the first record for each path, in input order.
fn dedup_skills(skills: Vec<SkillMetadata>) -> (r: Vec<SkillMetadata>)
    ensures
        r@ == dedup_by_path(skills@),
{
    let ghost all = skills@;
    let mut rest = skills;
    let mut out: Vec<SkillMetadata> = Vec::new();
    let ghost mut i: int = 0;
    while rest.len() > 0
        invariant
            0 <= i <= all.len(),
            rest@ == all.subrange(i as int, all.len() as int),
            out@ == dedup_by_path(all.subrange(0, i as int)),
        decreases rest.len(),
    {
        let item = rest.remove(0);
        proof {
            lemma_dedup_keeps_first(all.subrange(0, i as int));
        }
        let mut seen = false;
        let mut j: usize = 0;
        while j < out.len()
            invariant
                j <= out.len(),
                seen == path_seen_before(out@, j as int, item.path@),
            decreases out.len() - j,
        {
            if out[j].path == item.path {
                seen = true;
            }
            j = j + 1;
        }
        proof {
            let pre = all.subrange(0, i as int);
            let next = all.subrange(0, i + 1);
            assert(next.drop_last() =~= pre);
            assert(item == all[i as int]);
            assert forall|p: Seq<char>| path_seen_before(next, i as int, p) == path_seen_before(pre, i as int, p) by {
                if path_seen_before(next, i as int, p) {
                    let k = choose|k: int| 0 <= k < i && #[trigger] next[k].path@ == p;
                    assert(pre[k] == next[k]);
                }
                if path_seen_before(pre, i as int, p) {
                    let k = choose|k: int| 0 <= k < i && #[trigger] pre[k].path@ == p;
                    assert(pre[k] == next[k]);
                }
            }
            assert(path_seen_before(next, i as int, item.path@) == seen);
        }
        if !seen {
            out.push(item);
        }
        proof {
            i = i + 1;
        }
    }
    proof {
        assert(all.subrange(0, i as int) =~= all);
    }
    out
}

/// Sorts by [`skill_lt`] with an insertion sort that keeps the elements.
fn sort_skills(skills: Vec<SkillMetadata>) -> (r: Vec<SkillMetadata>)
    ensures
        r@.to_multiset() == skills@.to_multiset(),
        r@.len() == skills@.len(),
        sorted_skills(r@),
{
    broadcast use vstd::seq_lib::to_multiset_insert, vstd::seq_lib::group_to_multiset_ensures;

    let ghost all = skills@;
    let mut rest = skills;
    let mut out: Vec<SkillMetadata> = Vec::new();
    let ghost mut i: int = 0;
    while rest.len() > 0
        invariant
            0 <= i <= all.len(),
            rest@ == all.subrange(i as int, all.len() as int),
            out@.to_multiset() == all.subrange(0, i as int).to_multiset(),
            out@.len() == i,
            sorted_skills(out@),
        decreases rest.len(),
    {
        let item = rest.remove(0);
        let mut p: usize = 0;
        while p < out.len() && !skill_less(&item, &out[p])
            invariant
                p <= out.len(),
                forall|q: int| 0 <= q < p ==> !skill_lt(item, #[trigger] out@[q]),
            decreases out.len() - p,
        {
            p = p + 1;
        }
        proof {
            if p < out.len() {
                lemma_skill_lt_strict_total(item, out@[p as int]);
            }
        }
        let ghost before = out@;
        out.insert(p, item);
        proof {
            assert(all.subrange(0, i + 1) =~= all.subrange(0, i as int).push(all[i as int]));
            assert(out@ =~= before.insert(p as int, item));
            assert(item == all[i]);
            vstd::seq_lib::to_multiset_insert(before, p as int, item);
            vstd::seq_lib::to_multiset_build(all.subrange(0, i), item);
            assert forall|k: int| 0 <= k && k + 1 < out@.len() implies !skill_lt(#[trigger] out@[k + 1], out@[k]) by {
                if k + 1 < p {
                    assert(out@[k] == before[k] && out@[k + 1] == before[k + 1]);
                    assert(!skill_lt(before[k + 1], before[k]));
                } else if k + 1 == p {
                    assert(out@[k] == before[k]);
                    assert(out@[k + 1] == item);
                } else if k == p {
                    assert(out@[k] == item);
                    assert(out@[k + 1] == before[k]);
                } else {
                    assert(out@[k] == before[k - 1] && out@[k + 1] == before[k]);
                    assert(!skill_lt(before[(k - 1) + 1], before[k - 1]));
                }
            }
        }
        proof {
            i = i + 1;
        }
    }
    proof {
        assert(all.subrange(0, i as int) =~= all);
    }
    out
}

/// Merges the skills found under every root, given in root scan order, into
/// the final list: for each canonical path only the record found first is
/// kept, and the result is ordered by scope rank, then name, then path.
pub fn load_skills(discovered: Vec<SkillMetadata>) -> (r: Vec<SkillMetadata>)
    ensures
        r@.to_multiset() == dedup_by_path(discovered@).to_multiset(),
        r@.len() == dedup_by_path(discovered@).len(),
        sorted_skills(r@),
        forall|x: SkillMetadata| #[trigger] r@.contains(x) <==> is_first_occurrence(discovered@, x),
{
    broadcast use vstd::seq_lib::group_to_multiset_ensures;

    let ghost all = discovered@;
    let deduped = dedup_skills(discovered);
    let r = sort_skills(deduped);
    proof {
        lemma_dedup_keeps_first(all);
        let d = dedup_by_path(all);
        assert forall|x: SkillMetadata| #[trigger] r@.contains(x) <==> is_first_occurrence(all, x) by {
            if is_first_occurrence(all, x) {
                let f = choose|f: int| #[trigger] first_occurrence_at(all, f, x);
                assert(d.contains(all[f]));
            }
            assert(r@.contains(x) <==> r@.to_multiset().count(x) > 0);
            assert(d.contains(x) <==> d.to_multiset().count(x) > 0);
        }
    }
    r
}

} // verus!
