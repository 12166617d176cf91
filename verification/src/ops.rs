//! The five mutating workspace operations: committing selected changes,
//! creating a branch, amending a commit, inserting a blank commit and moving
//! file changes between commits.
//!
//! Each operation is a short transaction over the [`Workspace`] model:
//! resolve names and identifiers, mutate the commit graph, allocate fresh
//! identifiers for every rebuilt commit, record the outcome in the snapshot
//! log where the commit graph changed, and queue a stack notification. Identifier
//! remapping follows the stack order: within a stack, a commit's descendants
//! are all commits nearer the tip, across branch boundaries.

use vstd::prelude::*;
use crate::model::Workspace;
use crate::model::Stack;
use crate::model::Branch;
use crate::model::CommitEntry;
use crate::model::CommitChange;
use crate::model::WorktreeChange;
use crate::model::SnapshotEntry;
use crate::model::ChangeStatus;
use crate::model::path_selected;
use crate::model::all_digits;
use crate::model::digits_value;
use crate::model::parse_id;
use crate::model::selection_contains;
use crate::model::str_eq;
use crate::model::stack_ids_below;
use crate::model::branch_ids_below;
use crate::model::branch_names_unique;
use crate::model::ws_wf;
use crate::envelope::ToolError;
use crate::message::composed;
use crate::message::compose_message;
use crate::params::CommitParameters;
use crate::params::CreateBranchParameters;
use crate::params::AmendParameters;
use crate::params::CreateBlankCommitParameters;
use crate::params::MoveFileChangesParameters;

verus! {

/// Whether the stack holds a branch with the given name.
pub open spec fn stack_has_branch(s: Stack, name: Seq<char>) -> bool {
    exists|j: int| 0 <= j < s.branches@.len() && (#[trigger] s.branches@[j]).name@ == name
}

/// Whether any stack in the sequence holds a branch with the given name.
pub open spec fn some_stack_has_branch(stacks: Seq<Stack>, name: Seq<char>) -> bool {
    exists|i: int| 0 <= i < stacks.len() && stack_has_branch(#[trigger] stacks[i], name)
}

/// Index of the first stack holding a branch with the given name.
pub fn find_stack_with_branch(stacks: &Vec<Stack>, name: &str) -> (r: Option<usize>)
    ensures
        match r {
            Some(i) => {
                &&& i < stacks@.len()
                &&& stack_has_branch(stacks@[i as int], name@)
                &&& forall|k: int| 0 <= k < i ==> !stack_has_branch(stacks@[k], name@)
            },
            None => !some_stack_has_branch(stacks@, name@),
        },
{
    let mut i: usize = 0;
    while i < stacks.len()
        invariant
            0 <= i <= stacks@.len(),
            forall|k: int| 0 <= k < i ==> !stack_has_branch(stacks@[k], name@),
        decreases stacks@.len() - i,
    {
        if find_branch(&stacks[i], name).is_some() {
            return Some(i);
        }
        i = i + 1;
    }
    None
}

/// Index of the first branch with the given name in the stack.
pub fn find_branch(stack: &Stack, name: &str) -> (r: Option<usize>)
    ensures
        match r {
            Some(j) => {
                &&& j < stack.branches@.len()
                &&& stack.branches@[j as int].name@ == name@
                &&& forall|k: int| 0 <= k < j ==> stack.branches@[k].name@ != name@
            },
            None => !stack_has_branch(*stack, name@),
        },
{
    let mut j: usize = 0;
    while j < stack.branches.len()
        invariant
            0 <= j <= stack.branches@.len(),
            forall|k: int| 0 <= k < j ==> stack.branches@[k].name@ != name@,
        decreases stack.branches@.len() - j,
    {
        if str_eq(stack.branches[j].name.as_str(), name) {
            return Some(j);
        }
        j = j + 1;
    }
    None
}

/// Index of the first stack with the given identifier.
pub fn find_stack_by_id(stacks: &Vec<Stack>, id: u64) -> (r: Option<usize>)
    ensures
        match r {
            Some(i) => {
                &&& i < stacks@.len()
                &&& stacks@[i as int].id == id
                &&& forall|k: int| 0 <= k < i ==> stacks@[k].id != id
            },
            None => forall|k: int| 0 <= k < stacks@.len() ==> stacks@[k].id != id,
        },
{
    let mut i: usize = 0;
    while i < stacks.len()
        invariant
            0 <= i <= stacks@.len(),
            forall|k: int| 0 <= k < i ==> stacks@[k].id != id,
        decreases stacks@.len() - i,
    {
        if stacks[i].id == id {
            return Some(i);
        }
        i = i + 1;
    }
    None
}

/// Whether the branch holds a commit with the given identifier.
pub open spec fn branch_has_commit(b: Branch, id: u64) -> bool {
    exists|c: int| 0 <= c < b.commits@.len() && (#[trigger] b.commits@[c]).id == id
}

/// Whether the stack holds a commit with the given identifier.
pub open spec fn stack_has_commit(s: Stack, id: u64) -> bool {
    exists|b: int| 0 <= b < s.branches@.len() && branch_has_commit(#[trigger] s.branches@[b], id)
}

/// Position `(branch, commit)` of the first commit with the given identifier,
/// scanning branches from the tip.
pub fn find_commit_in_stack(stack: &Stack, id: u64) -> (r: Option<(usize, usize)>)
    ensures
        match r {
            Some(p) => {
                &&& p.0 < stack.branches@.len()
                &&& p.1 < stack.branches@[p.0 as int].commits@.len()
                &&& stack.branches@[p.0 as int].commits@[p.1 as int].id == id
            },
            None => !stack_has_commit(*stack, id),
        },
{
    let mut b: usize = 0;
    while b < stack.branches.len()
        invariant
            0 <= b <= stack.branches@.len(),
            forall|k: int| 0 <= k < b ==> !branch_has_commit(stack.branches@[k], id),
        decreases stack.branches@.len() - b,
    {
        let br = &stack.branches[b];
        let mut c: usize = 0;
        while c < br.commits.len()
            invariant
                0 <= c <= br.commits@.len(),
                b < stack.branches@.len(),
                *br == stack.branches@[b as int],
                forall|k: int| 0 <= k < c ==> br.commits@[k].id != id,
            decreases br.commits@.len() - c,
        {
            if br.commits[c].id == id {
                return Some((b, c));
            }
            c = c + 1;
        }
        proof {
            assert(!branch_has_commit(stack.branches@[b as int], id));
        }
        b = b + 1;
    }
    None
}

/// Copy of a change status, equal to the original.
pub fn dup_status(s: &ChangeStatus) -> (r: ChangeStatus)
    ensures
        r == *s,
{
    match s {
        ChangeStatus::Added => ChangeStatus::Added,
        ChangeStatus::Deleted => ChangeStatus::Deleted,
        ChangeStatus::Modified => ChangeStatus::Modified,
        ChangeStatus::RenamedFrom(p) => ChangeStatus::RenamedFrom(p.clone()),
    }
}

/// The pending change as a commit content entry with the same fields.
pub open spec fn as_commit_change(c: WorktreeChange) -> CommitChange {
    CommitChange { path: c.path, status: c.status, hunks: c.hunks }
}

/// The pending changes whose path is in the selection, converted to commit
/// content entries, in their original order.
pub open spec fn selected_changes(pending: Seq<WorktreeChange>, files: Seq<String>) -> Seq<
    CommitChange,
>
    decreases pending.len(),
{
    if pending.len() == 0 {
        Seq::empty()
    } else {
        let rest = selected_changes(pending.drop_last(), files);
        if path_selected(files, pending.last().path@) {
            rest.push(as_commit_change(pending.last()))
        } else {
            rest
        }
    }
}

/// The pending changes whose path is not in the selection, in their original
/// order.
pub open spec fn unselected_changes(pending: Seq<WorktreeChange>, files: Seq<String>) -> Seq<
    WorktreeChange,
>
    decreases pending.len(),
{
    if pending.len() == 0 {
        Seq::empty()
    } else {
        let rest = unselected_changes(pending.drop_last(), files);
        if path_selected(files, pending.last().path@) {
            rest
        } else {
            rest.push(pending.last())
        }
    }
}

/// Split the pending changes into the selected part (as commit content) and
/// the part left untouched. Consumes the list, so the split moves each change
/// rather than copying it.
pub fn split_pending(pending: Vec<WorktreeChange>, files: &Vec<String>) -> (r: (
    Vec<CommitChange>,
    Vec<WorktreeChange>,
))
    ensures
        r.0@ == selected_changes(pending@, files@),
        r.1@ == unselected_changes(pending@, files@),
{
    let ghost orig = pending@;
    let mut work = pending;
    let n0 = work.len();
    proof {
        assert(orig.len() == n0);
    }
    let mut sel: Vec<CommitChange> = Vec::new();
    let mut rest: Vec<WorktreeChange> = Vec::new();
    let mut i: usize = 0;
    while work.len() > 0
        invariant
            orig.len() <= usize::MAX,
            i + work@.len() == orig.len(),
            work@ == orig.subrange(i as int, orig.len() as int),
            sel@ == selected_changes(orig.subrange(0, i as int), files@),
            rest@ == unselected_changes(orig.subrange(0, i as int), files@),
        decreases work@.len(),
    {
        let c = work.remove(0);
        proof {
            assert(c == orig[i as int]);
            assert(orig.subrange(0, i + 1).drop_last() =~= orig.subrange(0, i as int));
            assert(orig.subrange(0, i + 1).last() == orig[i as int]);
            assert(work@ =~= orig.subrange(i + 1, orig.len() as int));
        }
        if selection_contains(files, c.path.as_str()) {
            sel.push(CommitChange { path: c.path, status: c.status, hunks: c.hunks });
        } else {
            rest.push(c);
        }
        i = i + 1;
    }
    proof {
        assert(orig.subrange(0, orig.len() as int) =~= orig);
    }
    (sel, rest)
}

/// Number of commits in the branches strictly nearer the tip than branch
/// `bi`.
pub open spec fn commits_before(branches: Seq<Branch>, bi: int) -> int
    decreases bi,
{
    if bi <= 0 {
        0
    } else {
        commits_before(branches, bi - 1) + branches[bi - 1].commits@.len()
    }
}

/// Number of commits at or above position `(bi, ci)`: the commit itself and
/// every commit nearer the tip of the stack.
pub open spec fn affected_count(branches: Seq<Branch>, bi: int, ci: int) -> int {
    commits_before(branches, bi) + ci + 1
}

/// Whether position `(b, c)` is at or above position `(bi, ci)` in the stack:
/// such commits are rebuilt and receive fresh identifiers.
pub open spec fn is_affected(bi: int, ci: int, b: int, c: int) -> bool {
    b < bi || (b == bi && c <= ci)
}

/// Position of `(b, c)` in tip-first stack order.
pub open spec fn flat_index(branches: Seq<Branch>, b: int, c: int) -> int {
    commits_before(branches, b) + c
}

/// The two branches agree on everything but the commits' contents.
pub open spec fn branch_same_shape(b1: Branch, b2: Branch) -> bool {
    &&& b2.name == b1.name
    &&& b2.description == b1.description
    &&& b2.archived == b1.archived
    &&& b2.commits@.len() == b1.commits@.len()
}

proof fn lemma_commits_before_mono(branches: Seq<Branch>, b1: int, b2: int)
    requires
        0 <= b1 <= b2,
    ensures
        commits_before(branches, b1) <= commits_before(branches, b2),
    decreases b2 - b1,
{
    if b1 < b2 {
        lemma_commits_before_mono(branches, b1, b2 - 1);
    }
}

/// Rebuild the commits at and above position `(bi, ci)`: each affected commit
/// keeps its message and content but receives a fresh identifier, allocated in
/// tip-first order starting at `*next`. Returns the rebuilt stack and the
/// remap list, one `(old, new)` pair per rebuilt commit in tip-first order.
pub fn rebuild_commits(st: Stack, next: &mut u64, bi: usize, ci: usize) -> (r: (
    Stack,
    Vec<(u64, u64)>,
))
    requires
        bi < st.branches@.len(),
        ci < st.branches@[bi as int].commits@.len(),
        *old(next) + affected_count(st.branches@, bi as int, ci as int) <= u64::MAX,
        stack_ids_below(st, *old(next)),
    ensures
        ({
            let st2 = r.0;
            let remap = r.1;
            let ob = st.branches@;
            let n0 = *old(next) as int;
            let cnt = affected_count(ob, bi as int, ci as int);
            &&& st2.id == st.id
            &&& st2.name == st.name
            &&& st2.branches@.len() == ob.len()
            &&& forall|b: int|
                0 <= b < ob.len() ==> branch_same_shape(ob[b], #[trigger] st2.branches@[b])
            &&& forall|b: int, c: int|
                0 <= b < ob.len() && 0 <= c < ob[b].commits@.len() && !is_affected(
                    bi as int,
                    ci as int,
                    b,
                    c,
                ) ==> #[trigger] st2.branches@[b].commits@[c] == ob[b].commits@[c]
            &&& forall|b: int, c: int|
                0 <= b < ob.len() && 0 <= c < ob[b].commits@.len() && is_affected(
                    bi as int,
                    ci as int,
                    b,
                    c,
                ) ==> {
                    let cm = #[trigger] st2.branches@[b].commits@[c];
                    &&& cm.message == ob[b].commits@[c].message
                    &&& cm.changes == ob[b].commits@[c].changes
                    &&& cm.id == n0 + flat_index(ob, b, c)
                }
            &&& *final(next) == n0 + cnt
            &&& remap@.len() == cnt
            &&& forall|k: int|
                0 <= k < cnt ==> (#[trigger] remap@[k]).1 == n0 + k && remap@[k].0 < n0
            &&& forall|b: int, c: int|
                0 <= b < ob.len() && 0 <= c < ob[b].commits@.len() && is_affected(
                    bi as int,
                    ci as int,
                    b,
                    c,
                ) ==> #[trigger] remap@[flat_index(ob, b, c)] == (
                    ob[b].commits@[c].id,
                    (n0 + flat_index(ob, b, c)) as u64,
                )
        }),
{
    let ghost ob = st.branches@;
    let ghost n0 = *next as int;
    let ghost cnt = affected_count(ob, bi as int, ci as int);
    let Stack { id, name, branches } = st;
    let mut work = branches;
    let mut done: Vec<Branch> = Vec::new();
    let mut remap: Vec<(u64, u64)> = Vec::new();
    let mut b: usize = 0;
    let nb = work.len();
    while work.len() > 0
        invariant
            ob.len() == nb <= usize::MAX,
            b == done@.len(),
            b + work@.len() == ob.len(),
            work@ == ob.subrange(b as int, ob.len() as int),
            bi < ob.len(),
            ci < ob[bi as int].commits@.len(),
            n0 + cnt <= u64::MAX,
            cnt == affected_count(ob, bi as int, ci as int),
            forall|j: int, k: int|
                0 <= j < ob.len() && 0 <= k < ob[j].commits@.len() ==> (
                #[trigger] ob[j].commits@[k]).id < n0,
            forall|j: int|
                0 <= j < b ==> branch_same_shape(ob[j], #[trigger] done@[j]),
            forall|j: int, k: int|
                0 <= j < b && 0 <= k < ob[j].commits@.len() && !is_affected(
                    bi as int,
                    ci as int,
                    j,
                    k,
                ) ==> #[trigger] done@[j].commits@[k] == ob[j].commits@[k],
            forall|j: int, k: int|
                0 <= j < b && 0 <= k < ob[j].commits@.len() && is_affected(
                    bi as int,
                    ci as int,
                    j,
                    k,
                ) ==> {
                    let cm = #[trigger] done@[j].commits@[k];
                    &&& cm.message == ob[j].commits@[k].message
                    &&& cm.changes == ob[j].commits@[k].changes
                    &&& cm.id == n0 + flat_index(ob, j, k)
                },
            remap@.len() == if b <= bi {
                commits_before(ob, b as int)
            } else {
                cnt
            },
            *next == n0 + remap@.len(),
            forall|k: int|
                0 <= k < remap@.len() ==> (#[trigger] remap@[k]).1 == n0 + k && remap@[k].0 < n0,
            forall|j: int, k: int|
                0 <= j < b && 0 <= k < ob[j].commits@.len() && is_affected(
                    bi as int,
                    ci as int,
                    j,
                    k,
                ) ==> #[trigger] remap@[flat_index(ob, j, k)] == (
                    ob[j].commits@[k].id,
                    (n0 + flat_index(ob, j, k)) as u64,
                ),
        decreases work@.len(),
    {
        let br = work.remove(0);
        proof {
            assert(br == ob[b as int]);
            assert(work@ =~= ob.subrange(b + 1, ob.len() as int));
        }
        if b <= bi {
            let blen = br.commits.len();
            let stop: usize = if b < bi {
                blen
            } else {
                ci + 1
            };
            let Branch { name: bname, description, commits, archived } = br;
            let ghost obc = ob[b as int].commits@;
            let mut cwork = commits;
            let mut cdone: Vec<CommitEntry> = Vec::new();
            let mut c: usize = 0;
            proof {
                assert(obc.len() == blen);
                if b < bi {
                    lemma_commits_before_mono(ob, b + 1, bi as int);
                }
                assert(commits_before(ob, b + 1) == commits_before(ob, b as int)
                    + obc.len());
            }
            while c < stop
                invariant
                    obc.len() <= usize::MAX,
                    c <= stop,
                    c == cdone@.len(),
                    c + cwork@.len() == obc.len(),
                    cwork@ == obc.subrange(c as int, obc.len() as int),
                    stop <= obc.len(),
                    b <= bi < ob.len(),
                    ci < ob[bi as int].commits@.len(),
                    obc == ob[b as int].commits@,
                    b < bi ==> stop == obc.len(),
                    b == bi ==> stop == ci + 1,
                    n0 + cnt <= u64::MAX,
                    cnt == affected_count(ob, bi as int, ci as int),
                    commits_before(ob, b as int) + (if b < bi {
                        obc.len() as int
                    } else {
                        ci + 1
                    }) <= cnt,
                    forall|j: int, k: int|
                        0 <= j < ob.len() && 0 <= k < ob[j].commits@.len() ==> (
                        #[trigger] ob[j].commits@[k]).id < n0,
                    forall|k: int|
                        0 <= k < c ==> {
                            let cm = #[trigger] cdone@[k];
                            &&& cm.message == obc[k].message
                            &&& cm.changes == obc[k].changes
                            &&& cm.id == n0 + flat_index(ob, b as int, k)
                        },
                    remap@.len() == commits_before(ob, b as int) + c,
                    *next == n0 + remap@.len(),
                    forall|k: int|
                        0 <= k < remap@.len() ==> (#[trigger] remap@[k]).1 == n0 + k
                            && remap@[k].0 < n0,
                    forall|j: int, k: int|
                        0 <= j < b && 0 <= k < ob[j].commits@.len() && is_affected(
                            bi as int,
                            ci as int,
                            j,
                            k,
                        ) ==> #[trigger] remap@[flat_index(ob, j, k)] == (
                            ob[j].commits@[k].id,
                            (n0 + flat_index(ob, j, k)) as u64,
                        ),
                    forall|k: int|
                        commits_before(ob, b as int) <= k < remap@.len()
                            ==> (#[trigger] remap@[k]) == (
                            obc[k - commits_before(ob, b as int)].id,
                            (n0 + k) as u64,
                        ),
                decreases stop - c,
            {
                let mut cm = cwork.remove(0);
                proof {
                    assert(cm == obc[c as int]);
                    assert(cwork@ =~= obc.subrange(c + 1, obc.len() as int));
                    if b < bi {
                        lemma_commits_before_mono(ob, b + 1, bi as int);
                    }
                    assert(remap@.len() < cnt);
                }
                let nid = *next;
                *next = *next + 1;
                let ghost prev = remap@;
                remap.push((cm.id, nid));
                proof {
                    assert(remap@ == prev.push((obc[c as int].id, nid)));
                    assert(forall|k: int| 0 <= k < prev.len() ==> #[trigger] remap@[k] == prev[k]);
                    assert(remap@[prev.len() as int] == (obc[c as int].id, nid));
                    assert forall|j: int, k: int|
                        0 <= j < b && 0 <= k < ob[j].commits@.len() && is_affected(
                            bi as int,
                            ci as int,
                            j,
                            k,
                        ) implies #[trigger] remap@[flat_index(ob, j, k)] == (
                        ob[j].commits@[k].id,
                        (n0 + flat_index(ob, j, k)) as u64,
                    ) by {
                        lemma_commits_before_mono(ob, 0, j);
                        lemma_commits_before_mono(ob, j + 1, b as int);
                        assert(commits_before(ob, j + 1) == commits_before(ob, j)
                            + ob[j].commits@.len());
                        assert(flat_index(ob, j, k) < prev.len());
                        assert(remap@[flat_index(ob, j, k)] == prev[flat_index(ob, j, k)]);
                    }
                    assert forall|k: int|
                        commits_before(ob, b as int) <= k < remap@.len() implies (
                    #[trigger] remap@[k]) == (
                        obc[k - commits_before(ob, b as int)].id,
                        (n0 + k) as u64,
                    ) by {
                        lemma_commits_before_mono(ob, 0, b as int);
                        if k < prev.len() {
                            assert(remap@[k] == prev[k]);
                        } else {
                            assert(k == prev.len());
                        }
                    }
                }
                cm.id = nid;
                cdone.push(cm);
                c = c + 1;
            }
            // Move the commits above the rebuilt region unchanged.
            while cwork.len() > 0
                invariant
                    obc.len() <= usize::MAX,
                    c == cdone@.len(),
                    c + cwork@.len() == obc.len(),
                    cwork@ == obc.subrange(c as int, obc.len() as int),
                    stop <= c,
                    b <= bi < ob.len(),
                    obc == ob[b as int].commits@,
                    b < bi ==> stop == obc.len(),
                    b == bi ==> stop == ci + 1,
                    forall|k: int|
                        0 <= k < c && k < stop ==> {
                            let cm = #[trigger] cdone@[k];
                            &&& cm.message == obc[k].message
                            &&& cm.changes == obc[k].changes
                            &&& cm.id == n0 + flat_index(ob, b as int, k)
                        },
                    forall|k: int| stop <= k < c ==> #[trigger] cdone@[k] == obc[k],
                decreases cwork@.len(),
            {
                let cm = cwork.remove(0);
                proof {
                    assert(cm == obc[c as int]);
                    assert(cwork@ =~= obc.subrange(c + 1, obc.len() as int));
                }
                cdone.push(cm);
                c = c + 1;
            }
            proof {
                assert(commits_before(ob, b + 1) == commits_before(ob, b as int) + obc.len());
            }
            done.push(
                Branch { name: bname, description, commits: cdone, archived },
            );
        } else {
            done.push(br);
        }
        b = b + 1;
    }
    proof {
        assert(forall|j: int|
            0 <= j < ob.len() ==> branch_same_shape(ob[j], #[trigger] done@[j]));
    }
    (Stack { id, name, branches: done }, remap)
}

/// Outcome of branch creation: the new stack and the branch on it.
pub struct BranchOutcome {
    pub stack_id: u64,
    pub branch_name: String,
}

/// Outcome of commit creation or amendment: the new commit and its stack.
pub struct CommitOutcome {
    pub commit_id: u64,
    pub stack_id: u64,
}

/// Whether `next` leaves room to allocate one identifier per commit at or
/// above position `(bi, ci)`.
pub fn rebuild_headroom(st: &Stack, next: u64, bi: usize, ci: usize) -> (ok: bool)
    requires
        bi < st.branches@.len(),
        ci < st.branches@[bi as int].commits@.len(),
    ensures
        ok <==> next + affected_count(st.branches@, bi as int, ci as int) <= u64::MAX,
{
    let ghost ob = st.branches@;
    let mut acc: u64 = 0;
    let mut b: usize = 0;
    while b < bi
        invariant
            b <= bi < ob.len(),
            ob == st.branches@,
            ci < ob[bi as int].commits@.len(),
            acc == commits_before(ob, b as int),
        decreases bi - b,
    {
        let l = st.branches[b].commits.len() as u64;
        if acc > u64::MAX - l {
            proof {
                lemma_commits_before_mono(ob, b + 1, bi as int);
            }
            return false;
        }
        acc = acc + l;
        b = b + 1;
    }
    let ci64 = ci as u64;
    if acc > u64::MAX - ci64 {
        return false;
    }
    let t = acc + ci64;
    if t == u64::MAX {
        return false;
    }
    let cnt = t + 1;
    next <= u64::MAX - cnt
}

/// Everything branch creation guarantees: it fails exactly on a name
/// collision or an exhausted identifier space, and on success exactly one new
/// stack with the described single branch was appended, the queue holds one
/// new notification, and nothing else moved.
pub open spec fn create_branch_post(
    w0: Workspace,
    w1: Workspace,
    params: CreateBranchParameters,
    r: Result<BranchOutcome, ToolError>,
) -> bool {
    &&& (r is Err <==> some_stack_has_branch(w0.stacks@, params.branch_name@) || w0.next_id
        == u64::MAX)
    &&& match r {
        Ok(out) => {
            &&& w1.stacks@.len() == w0.stacks@.len() + 1
            &&& w1.stacks@.subrange(0, w0.stacks@.len() as int) == w0.stacks@
            &&& out.stack_id == w0.next_id
            &&& out.branch_name@ == params.branch_name@
            &&& ({
                let st = w1.stacks@.last();
                &&& st.id == out.stack_id
                &&& st.name == params.branch_name
                &&& st.branches@.len() == 1
                &&& st.branches@[0].name == params.branch_name
                &&& st.branches@[0].description == Some(params.branch_description)
                &&& st.branches@[0].commits@.len() == 0
                &&& !st.branches@[0].archived
            })
            &&& w1.pending == w0.pending
            &&& w1.assignments == w0.assignments
            &&& w1.snapshots == w0.snapshots
            &&& w1.workspace_commit == w0.workspace_commit
            &&& w1.notifications@ == w0.notifications@.push(out.stack_id)
        },
        Err(e) => w1 == w0 && e is Engine,
    }
}

/// Create a new stack with a single empty branch of the given name and
/// description. Fails with an engine error exactly when a branch with that
/// name already exists somewhere in the workspace, or when the identifier
/// space is exhausted.
pub fn create_branch(ws: &mut Workspace, params: &CreateBranchParameters) -> (r: Result<
    BranchOutcome,
    ToolError,
>)
    requires
        ws_wf(*old(ws)),
    ensures
        ws_wf(*final(ws)),
        create_branch_post(*old(ws), *final(ws), *params, r),
{
    let ghost old_ws = *ws;
    if find_stack_with_branch(&ws.stacks, params.branch_name.as_str()).is_some() {
        return Err(
            ToolError::Engine("a branch with this name already exists".to_owned()),
        );
    }
    let stack_id = match ws.fresh_id() {
        Ok(id) => id,
        Err(()) => {
            return Err(ToolError::Engine("identifier space exhausted".to_owned()));
        },
    };
    let branch = Branch {
        name: params.branch_name.clone(),
        description: Some(params.branch_description.clone()),
        commits: Vec::new(),
        archived: false,
    };
    let mut branches: Vec<Branch> = Vec::new();
    branches.push(branch);
    let stack = Stack { id: stack_id, name: params.branch_name.clone(), branches };
    ws.stacks.push(stack);
    ws.notifications.push(stack_id);
    let out = BranchOutcome { stack_id, branch_name: params.branch_name.clone() };
    proof {
        assert(ws.stacks@.subrange(0, old_ws.stacks@.len() as int) =~= old_ws.stacks@);
        assert(create_branch_post(old_ws, *ws, *params, Ok(out)));
    }
    Ok(out)
}

/// The branch after a commit lands on it: description overwritten, the new
/// commit at the tip, everything else as before.
pub open spec fn branch_after_commit(
    oldb: Branch,
    newb: Branch,
    desc: String,
    title: Seq<char>,
    body: Seq<char>,
    cid: u64,
    changes: Seq<CommitChange>,
) -> bool {
    &&& newb.name == oldb.name
    &&& newb.archived == oldb.archived
    &&& newb.description == Some(desc)
    &&& newb.commits@.len() == oldb.commits@.len() + 1
    &&& newb.commits@[0].id == cid
    &&& newb.commits@[0].message@ == composed(title, body)
    &&& newb.commits@[0].changes@ == changes
    &&& newb.commits@.subrange(1, newb.commits@.len() as int) == oldb.commits@
}

/// Everything committing guarantees. It fails exactly when the identifier
/// space is exhausted for the needed allocations. On success: the named
/// branch's stack is reused when one exists (first match), else exactly one
/// new stack is appended; the branch description is overwritten; the new
/// commit stands at the branch tip carrying the composed message and the
/// selected pending changes; the unselected changes stay pending; a snapshot
/// entry records the outcome; and the stack is queued for notification. On
/// failure the branch resolution, description overwrite, snapshot entry and
/// notification still happened, but no commit was added and the pending
/// changes are untouched.
pub open spec fn create_commit_post(
    w0: Workspace,
    w1: Workspace,
    params: CommitParameters,
    r: Result<CommitOutcome, ToolError>,
) -> bool {
    &&& (r is Err <==> (some_stack_has_branch(w0.stacks@, params.branch_name@) && w0.next_id
        == u64::MAX) || (!some_stack_has_branch(w0.stacks@, params.branch_name@) && w0.next_id + 1
        == u64::MAX))
    &&& (match r {
            Ok(out) => {
                &&& w0.next_id <= out.commit_id < w1.next_id
                &&& if some_stack_has_branch(w0.stacks@, params.branch_name@) {
                    exists|si: int, bj: int|
                        {
                            &&& 0 <= si < w0.stacks@.len()
                            &&& 0 <= bj < w0.stacks@[si].branches@.len()
                            &&& (#[trigger] w0.stacks@[si].branches@[bj]).name@
                                == params.branch_name@
                            &&& stack_has_branch(w0.stacks@[si], params.branch_name@)
                            &&& forall|k: int|
                                0 <= k < si ==> !stack_has_branch(
                                    #[trigger] w0.stacks@[k],
                                    params.branch_name@,
                                )
                            &&& out.stack_id == w0.stacks@[si].id
                            &&& w1.stacks@ == w0.stacks@.update(
                                si,
                                w1.stacks@[si],
                            )
                            &&& w1.stacks@[si].id == w0.stacks@[si].id
                            &&& w1.stacks@[si].name == w0.stacks@[si].name
                            &&& w1.stacks@[si].branches@ == w0.stacks@[si].branches@.update(
                                bj,
                                w1.stacks@[si].branches@[bj],
                            )
                            &&& branch_after_commit(
                                w0.stacks@[si].branches@[bj],
                                w1.stacks@[si].branches@[bj],
                                params.branch_description,
                                params.message_title@,
                                params.message_body@,
                                out.commit_id,
                                selected_changes(w0.pending@, params.files@),
                            )
                        }
                } else {
                    &&& w1.stacks@.len() == w0.stacks@.len() + 1
                    &&& w1.stacks@.subrange(0, w0.stacks@.len() as int) == w0.stacks@
                    &&& w1.stacks@.last().id == out.stack_id == w0.next_id
                    &&& w1.stacks@.last().name == params.branch_name
                    &&& w1.stacks@.last().branches@.len() == 1
                    &&& ({
                        let b = w1.stacks@.last().branches@[0];
                        &&& b.name == params.branch_name
                        &&& b.description == Some(params.branch_description)
                        &&& !b.archived
                        &&& b.commits@.len() == 1
                        &&& b.commits@[0].id == out.commit_id
                        &&& b.commits@[0].message@ == composed(
                            params.message_title@,
                            params.message_body@,
                        )
                        &&& b.commits@[0].changes@ == selected_changes(
                            w0.pending@,
                            params.files@,
                        )
                    })
                }
                &&& w1.pending@ == unselected_changes(w0.pending@, params.files@)
                &&& w1.assignments == w0.assignments
                &&& w1.workspace_commit == w0.workspace_commit
                &&& w1.snapshots@.len() == w0.snapshots@.len() + 1
                &&& w1.snapshots@.subrange(0, w0.snapshots@.len() as int) == w0.snapshots@
                &&& w1.snapshots@.last().success
                &&& w1.snapshots@.last().message@ == composed(
                    params.message_title@,
                    params.message_body@,
                )
                &&& w1.notifications@ == w0.notifications@.push(out.stack_id)
            },
            Err(e) => {
                &&& e is Engine
                &&& w1.pending == w0.pending
                &&& w1.assignments == w0.assignments
                &&& w1.workspace_commit == w0.workspace_commit
                &&& w1.snapshots@.len() == w0.snapshots@.len() + 1
                &&& !w1.snapshots@.last().success
                &&& w1.notifications@.len() == w0.notifications@.len() + 1
                &&& if some_stack_has_branch(w0.stacks@, params.branch_name@) {
                    exists|si: int, bj: int|
                        {
                            &&& 0 <= si < w0.stacks@.len()
                            &&& 0 <= bj < w0.stacks@[si].branches@.len()
                            &&& (#[trigger] w0.stacks@[si].branches@[bj]).name@
                                == params.branch_name@
                            &&& w1.stacks@ == w0.stacks@.update(si, w1.stacks@[si])
                            &&& w1.stacks@[si].id == w0.stacks@[si].id
                            &&& w1.stacks@[si].name == w0.stacks@[si].name
                            &&& w1.stacks@[si].branches@ == w0.stacks@[si].branches@.update(
                                bj,
                                w1.stacks@[si].branches@[bj],
                            )
                            &&& ({
                                let nb = w1.stacks@[si].branches@[bj];
                                &&& nb.name == w0.stacks@[si].branches@[bj].name
                                &&& nb.archived == w0.stacks@[si].branches@[bj].archived
                                &&& nb.description == Some(params.branch_description)
                                &&& nb.commits == w0.stacks@[si].branches@[bj].commits
                            })
                        }
                } else {
                    &&& w1.stacks@.len() == w0.stacks@.len() + 1
                    &&& w1.stacks@.subrange(0, w0.stacks@.len() as int) == w0.stacks@
                    &&& w1.stacks@.last().id == w0.next_id
                    &&& w1.stacks@.last().name == params.branch_name
                    &&& w1.stacks@.last().branches@.len() == 1
                    &&& w1.stacks@.last().branches@[0].name == params.branch_name
                    &&& w1.stacks@.last().branches@[0].description == Some(
                        params.branch_description,
                    )
                    &&& w1.stacks@.last().branches@[0].commits@.len() == 0
                    &&& !w1.stacks@.last().branches@[0].archived
                }
            },
        })
}

/// Commit the selected pending changes to the named branch. If a branch with
/// that name exists anywhere, its stack is reused and no stack is created;
/// otherwise a new stack/branch pair is created. The branch description is
/// overwritten unconditionally, a snapshot entry records the outcome, and the
/// affected stack is queued for notification, whether or not the commit step
/// succeeded.
pub fn create_commit(ws: &mut Workspace, params: &CommitParameters) -> (r: Result<
    CommitOutcome,
    ToolError,
>)
    requires
        ws_wf(*old(ws)),
        some_stack_has_branch(old(ws).stacks@, params.branch_name@) || old(ws).next_id
            < u64::MAX,
    ensures
        ws_wf(*final(ws)),
        create_commit_post(*old(ws), *final(ws), *params, r),
{
    let ghost old_ws = *ws;
    let message = compose_message(params.message_title.as_str(), params.message_body.as_str());
    let found = find_stack_with_branch(&ws.stacks, params.branch_name.as_str());
    match found {
        Some(si) => {
            let stack_id = ws.stacks[si].id;
            let mut st = ws.stacks.remove(si);
            let bj = match find_branch(&st, params.branch_name.as_str()) {
                Some(bj) => bj,
                None => {
                    proof {
                        assert(false);
                    }
                    return Err(ToolError::Engine("branch lookup failed".to_owned()));
                },
            };
            let mut br = st.branches.remove(bj);
            br.description = Some(params.branch_description.clone());
            match ws.fresh_id() {
                Ok(cid) => {
                    let mut pending_tmp: Vec<WorktreeChange> = Vec::new();
                    core::mem::swap(&mut pending_tmp, &mut ws.pending);
                    let (sel, rest) = split_pending(pending_tmp, &params.files);
                    ws.pending = rest;
                    let commit = CommitEntry { id: cid, message: message.clone(), changes: sel };
                    br.commits.insert(0, commit);
                    proof {
                        assert(br.commits@.subrange(1, br.commits@.len() as int)
                            =~= old_ws.stacks@[si as int].branches@[bj as int].commits@);
                    }
                    st.branches.insert(bj, br);
                    ws.stacks.insert(si, st);
                    ws.snapshots.push(SnapshotEntry { message, success: true });
                    ws.notifications.push(stack_id);
                    proof {
                        assert(ws.stacks@ =~= old_ws.stacks@.update(
                            si as int,
                            ws.stacks@[si as int],
                        ));
                        assert(ws.stacks@[si as int].branches@
                            =~= old_ws.stacks@[si as int].branches@.update(
                            bj as int,
                            ws.stacks@[si as int].branches@[bj as int],
                        ));
                        assert(ws.snapshots@.subrange(0, old_ws.snapshots@.len() as int)
                            =~= old_ws.snapshots@);
                        assert forall|i: int| 0 <= i < ws.stacks@.len() implies branch_names_unique(
                            #[trigger] ws.stacks@[i],
                        ) by {
                            assert(forall|j: int|
                                0 <= j < ws.stacks@[i].branches@.len()
                                    ==> (#[trigger] ws.stacks@[i].branches@[j]).name
                                    == old_ws.stacks@[i].branches@[j].name);
                        }
                    }
                    let out = CommitOutcome { commit_id: cid, stack_id };
                    proof {
                        assert(create_commit_post(old_ws, *ws, *params, Ok(out)));
                    }
                    Ok(out)
                },
                Err(()) => {
                    st.branches.insert(bj, br);
                    ws.stacks.insert(si, st);
                    ws.snapshots.push(SnapshotEntry { message, success: false });
                    ws.notifications.push(stack_id);
                    let e = ToolError::Engine("identifier space exhausted".to_owned());
                    proof {
                        assert(ws.stacks@ =~= old_ws.stacks@.update(
                            si as int,
                            ws.stacks@[si as int],
                        ));
                        assert(ws.stacks@[si as int].branches@
                            =~= old_ws.stacks@[si as int].branches@.update(
                            bj as int,
                            ws.stacks@[si as int].branches@[bj as int],
                        ));
                        assert forall|i: int| 0 <= i < ws.stacks@.len() implies branch_names_unique(
                            #[trigger] ws.stacks@[i],
                        ) by {
                            assert(forall|j: int|
                                0 <= j < ws.stacks@[i].branches@.len()
                                    ==> (#[trigger] ws.stacks@[i].branches@[j]).name
                                    == old_ws.stacks@[i].branches@[j].name);
                        }
                        assert(create_commit_post(old_ws, *ws, *params, Err(e)));
                    }
                    Err(e)
                },
            }
        },
        None => {
            let stack_id = match ws.fresh_id() {
                Ok(id) => id,
                Err(()) => {
                    proof {
                        assert(false);
                    }
                    return Err(ToolError::Engine("identifier space exhausted".to_owned()));
                },
            };
            let mut br = Branch {
                name: params.branch_name.clone(),
                description: Some(params.branch_description.clone()),
                commits: Vec::new(),
                archived: false,
            };
            match ws.fresh_id() {
                Ok(cid) => {
                    let mut pending_tmp: Vec<WorktreeChange> = Vec::new();
                    core::mem::swap(&mut pending_tmp, &mut ws.pending);
                    let (sel, rest) = split_pending(pending_tmp, &params.files);
                    ws.pending = rest;
                    let commit = CommitEntry { id: cid, message: message.clone(), changes: sel };
                    br.commits.push(commit);
                    let mut branches: Vec<Branch> = Vec::new();
                    branches.push(br);
                    let stack = Stack {
                        id: stack_id,
                        name: params.branch_name.clone(),
                        branches,
                    };
                    ws.stacks.push(stack);
                    ws.snapshots.push(SnapshotEntry { message, success: true });
                    ws.notifications.push(stack_id);
                    proof {
                        assert(ws.stacks@.subrange(0, old_ws.stacks@.len() as int)
                            =~= old_ws.stacks@);
                        assert(ws.snapshots@.subrange(0, old_ws.snapshots@.len() as int)
                            =~= old_ws.snapshots@);
                    }
                    let out = CommitOutcome { commit_id: cid, stack_id };
                    proof {
                        assert(create_commit_post(old_ws, *ws, *params, Ok(out)));
                    }
                    Ok(out)
                },
                Err(()) => {
                    let mut branches: Vec<Branch> = Vec::new();
                    branches.push(br);
                    let stack = Stack {
                        id: stack_id,
                        name: params.branch_name.clone(),
                        branches,
                    };
                    ws.stacks.push(stack);
                    ws.snapshots.push(SnapshotEntry { message, success: false });
                    ws.notifications.push(stack_id);
                    let e = ToolError::Engine("identifier space exhausted".to_owned());
                    proof {
                        assert(ws.stacks@.subrange(0, old_ws.stacks@.len() as int)
                            =~= old_ws.stacks@);
                        assert(create_commit_post(old_ws, *ws, *params, Err(e)));
                    }
                    Err(e)
                },
            }
        },
    }
}

/// What a successful amend did, at stack index `si` and commit position
/// `(bi, ci)`: the target commit carries the composed message and its old
/// content plus the selected pending changes; it and every commit nearer the
/// tip carry fresh identifiers; everything else is unchanged.
pub open spec fn amend_applied(
    w0: Workspace,
    w1: Workspace,
    params: AmendParameters,
    commit_id: u64,
    stack_id: u64,
    remap: Seq<(u64, u64)>,
    si: int,
    bi: int,
    ci: int,
) -> bool {
    let ob = w0.stacks@[si].branches@;
    let nst = w1.stacks@[si];
    let n0 = w0.next_id as int;
    let cnt = affected_count(ob, bi, ci);
    &&& 0 <= si < w0.stacks@.len()
    &&& w0.stacks@[si].id == stack_id
    &&& forall|k: int| 0 <= k < si ==> (#[trigger] w0.stacks@[k]).id != stack_id
    &&& 0 <= bi < ob.len()
    &&& 0 <= ci < ob[bi].commits@.len()
    &&& ob[bi].commits@[ci].id == digits_value(params.commit_id@)
    &&& w1.stacks@ == w0.stacks@.update(si, nst)
    &&& nst.id == w0.stacks@[si].id
    &&& nst.name == w0.stacks@[si].name
    &&& nst.branches@.len() == ob.len()
    &&& forall|b: int|
        0 <= b < ob.len() ==> branch_same_shape(ob[b], #[trigger] nst.branches@[b])
    &&& forall|b: int, c: int|
        0 <= b < ob.len() && 0 <= c < ob[b].commits@.len() && !is_affected(bi, ci, b, c)
            ==> #[trigger] nst.branches@[b].commits@[c] == ob[b].commits@[c]
    &&& forall|b: int, c: int|
        0 <= b < ob.len() && 0 <= c < ob[b].commits@.len() && is_affected(bi, ci, b, c) && !(b
            == bi && c == ci) ==> {
            let cm = #[trigger] nst.branches@[b].commits@[c];
            &&& cm.message == ob[b].commits@[c].message
            &&& cm.changes == ob[b].commits@[c].changes
            &&& cm.id == n0 + flat_index(ob, b, c)
        }
    &&& ({
        let cm = nst.branches@[bi].commits@[ci];
        &&& cm.message@ == composed(params.message_title@, params.message_body@)
        &&& cm.changes@ == ob[bi].commits@[ci].changes@ + selected_changes(
            w0.pending@,
            params.files@,
        )
        &&& cm.id == n0 + flat_index(ob, bi, ci) == commit_id
    })
    &&& remap_shape(remap, cnt, n0)
    &&& w1.assignments == w0.assignments
    &&& w1.workspace_commit == w0.workspace_commit
}

/// Outcome of an amend: the amended commit's new identifier, its stack, and
/// the identifier remap of every rebuilt commit.
pub struct AmendOutcome {
    pub commit_id: u64,
    pub stack_id: u64,
    pub remap: Vec<(u64, u64)>,
}

/// Shape of a remap list produced by rebuilding `cnt` commits starting at
/// identifier `n0`: new identifiers are consecutive from `n0`, and every old
/// identifier predates `n0`, so no pair relates an identifier to itself.
pub open spec fn remap_shape(remap: Seq<(u64, u64)>, cnt: int, n0: int) -> bool {
    &&& remap.len() == cnt
    &&& forall|k: int| 0 <= k < cnt ==> (#[trigger] remap[k]).1 == n0 + k && remap[k].0 < n0
}

/// A commit's file-level changes whose path is in the selection, in order.
pub open spec fn selected_commit_changes(changes: Seq<CommitChange>, files: Seq<String>) -> Seq<
    CommitChange,
>
    decreases changes.len(),
{
    if changes.len() == 0 {
        Seq::empty()
    } else {
        let rest = selected_commit_changes(changes.drop_last(), files);
        if path_selected(files, changes.last().path@) {
            rest.push(changes.last())
        } else {
            rest
        }
    }
}

/// A commit's file-level changes whose path is not in the selection, in order.
pub open spec fn unselected_commit_changes(changes: Seq<CommitChange>, files: Seq<String>) -> Seq<
    CommitChange,
>
    decreases changes.len(),
{
    if changes.len() == 0 {
        Seq::empty()
    } else {
        let rest = unselected_commit_changes(changes.drop_last(), files);
        if path_selected(files, changes.last().path@) {
            rest
        } else {
            rest.push(changes.last())
        }
    }
}

/// Split a commit's changes into the selected part and the rest.
pub fn split_commit_changes(changes: Vec<CommitChange>, files: &Vec<String>) -> (r: (
    Vec<CommitChange>,
    Vec<CommitChange>,
))
    ensures
        r.0@ == selected_commit_changes(changes@, files@),
        r.1@ == unselected_commit_changes(changes@, files@),
{
    let ghost orig = changes@;
    let mut work = changes;
    let n0 = work.len();
    proof {
        assert(orig.len() == n0);
    }
    let mut sel: Vec<CommitChange> = Vec::new();
    let mut rest: Vec<CommitChange> = Vec::new();
    let mut i: usize = 0;
    while work.len() > 0
        invariant
            orig.len() <= usize::MAX,
            i + work@.len() == orig.len(),
            work@ == orig.subrange(i as int, orig.len() as int),
            sel@ == selected_commit_changes(orig.subrange(0, i as int), files@),
            rest@ == unselected_commit_changes(orig.subrange(0, i as int), files@),
        decreases work@.len(),
    {
        let c = work.remove(0);
        proof {
            assert(c == orig[i as int]);
            assert(orig.subrange(0, i + 1).drop_last() =~= orig.subrange(0, i as int));
            assert(orig.subrange(0, i + 1).last() == orig[i as int]);
            assert(work@ =~= orig.subrange(i + 1, orig.len() as int));
        }
        if selection_contains(files, c.path.as_str()) {
            sel.push(c);
        } else {
            rest.push(c);
        }
        i = i + 1;
    }
    proof {
        assert(orig.subrange(0, orig.len() as int) =~= orig);
    }
    (sel, rest)
}

proof fn lemma_commits_before_congruence(ob1: Seq<Branch>, ob2: Seq<Branch>, b: int)
    requires
        0 <= b <= ob1.len(),
        b <= ob2.len(),
        forall|j: int|
            0 <= j < b ==> (#[trigger] ob1[j]).commits@.len() == ob2[j].commits@.len(),
    ensures
        commits_before(ob1, b) == commits_before(ob2, b),
    decreases b,
{
    if b > 0 {
        lemma_commits_before_congruence(ob1, ob2, b - 1);
    }
}

/// Everything amending guarantees: exact reference-error conditions, the
/// applied-amend shape on success, the untouched or snapshot-only state on
/// failure, and owed success whenever the identifiers resolve and the
/// identifier space suffices for the whole stack.
pub open spec fn amend_inner_post(
    w0: Workspace,
    w1: Workspace,
    params: AmendParameters,
    r: Result<AmendOutcome, ToolError>,
) -> bool {
    &&& (match r {
            Ok(out) => {
                &&& all_digits(params.stack_id@) && digits_value(params.stack_id@)
                    == out.stack_id
                &&& all_digits(params.commit_id@)
                &&& exists|si: int, bi: int, ci: int|
                    amend_applied(w0, w1, params, out.commit_id, out.stack_id, out.remap@, si, bi, ci)
                &&& w1.pending@ == unselected_changes(w0.pending@, params.files@)
                &&& w1.snapshots@.len() == w0.snapshots@.len() + 1
                &&& w1.snapshots@.subrange(0, w0.snapshots@.len() as int) == w0.snapshots@
                &&& w1.snapshots@.last().success
                &&& w1.snapshots@.last().message@ == composed(
                    params.message_title@,
                    params.message_body@,
                )
                &&& w1.notifications@ == w0.notifications@.push(out.stack_id)
            },
            Err(e) => {
                &&& (e is Reference ==> w1 == w0)
                &&& (e is Engine ==> {
                    &&& w1.stacks == w0.stacks
                    &&& w1.pending == w0.pending
                    &&& w1.notifications@.len() == w0.notifications@.len() + 1
                    &&& w1.snapshots@.len() == w0.snapshots@.len() + 1
                    &&& !w1.snapshots@.last().success
                })
                &&& (e is Reference || e is Engine)
            },
        })
    &&& ((r is Err && r->Err_0 is Reference) <==> !(all_digits(params.stack_id@) && digits_value(
            params.stack_id@,
        ) <= u64::MAX && all_digits(params.commit_id@) && digits_value(params.commit_id@)
            <= u64::MAX && (exists|k: int|
            0 <= k < w0.stacks@.len() && (#[trigger] w0.stacks@[k]).id == digits_value(
                params.stack_id@,
            ) && stack_has_commit(w0.stacks@[k], digits_value(params.commit_id@) as u64))))
    &&& ((exists|k: int|
            0 <= k < w0.stacks@.len() && (#[trigger] w0.stacks@[k]).id == digits_value(
                params.stack_id@,
            ) && stack_has_commit(w0.stacks@[k], digits_value(params.commit_id@) as u64)
                && w0.next_id + stack_total_commits(w0.stacks@[k]) <= u64::MAX)
            && all_digits(params.stack_id@) && digits_value(params.stack_id@) <= u64::MAX
            && all_digits(params.commit_id@) && digits_value(params.commit_id@) <= u64::MAX
            ==> r is Ok)
}

/// Amend the commit with the given identifier on the given stack: replace its
/// message with the composed one, absorb the selected pending changes into its
/// content (an empty selection amends only the message), and rebuild it and
/// every commit nearer the tip under fresh identifiers. The stack is queued
/// for notification whether or not the rebuild went through; identifier or
/// stack lookups that fail leave the workspace untouched.
pub fn amend_commit_inner(ws: &mut Workspace, params: &AmendParameters) -> (r: Result<
    AmendOutcome,
    ToolError,
>)
    requires
        ws_wf(*old(ws)),
    ensures
        ws_wf(*final(ws)),
        amend_inner_post(*old(ws), *final(ws), *params, r),
{
    let ghost old_ws = *ws;
    let sid = match parse_id(params.stack_id.as_str()) {
        Some(v) => v,
        None => {
            return Err(ToolError::Reference("stack id does not parse".to_owned()));
        },
    };
    let cid = match parse_id(params.commit_id.as_str()) {
        Some(v) => v,
        None => {
            return Err(ToolError::Reference("commit id does not parse".to_owned()));
        },
    };
    let si = match find_stack_by_id(&ws.stacks, sid) {
        Some(si) => si,
        None => {
            return Err(ToolError::Reference("no stack with this id".to_owned()));
        },
    };
    let (bi, ci) = match find_commit_in_stack(&ws.stacks[si], cid) {
        Some(p) => p,
        None => {
            proof {
                assert forall|k: int|
                    0 <= k < old_ws.stacks@.len() && (#[trigger] old_ws.stacks@[k]).id
                        == sid implies !stack_has_commit(old_ws.stacks@[k], cid) by {
                    assert(k == si as int);
                }
            }
            return Err(ToolError::Reference("no commit with this id on the stack".to_owned()));
        },
    };
    let message = compose_message(params.message_title.as_str(), params.message_body.as_str());
    if !rebuild_headroom(&ws.stacks[si], ws.next_id, bi, ci) {
        proof {
            lemma_affected_le_total(old_ws.stacks@[si as int], bi as int, ci as int);
            assert forall|k: int|
                0 <= k < old_ws.stacks@.len() && (#[trigger] old_ws.stacks@[k]).id
                    == sid implies !(old_ws.next_id + stack_total_commits(old_ws.stacks@[k])
                <= u64::MAX) by {
                assert(k == si as int);
            }
        }
        ws.snapshots.push(SnapshotEntry { message, success: false });
        ws.notifications.push(sid);
        return Err(ToolError::Engine("identifier space exhausted".to_owned()));
    }
    let mut st = ws.stacks.remove(si);
    let ghost ob = st.branches@;
    let mut br = st.branches.remove(bi);
    let mut cm = br.commits.remove(ci);
    cm.message = message.clone();
    let mut pending_tmp: Vec<WorktreeChange> = Vec::new();
    core::mem::swap(&mut pending_tmp, &mut ws.pending);
    let (mut sel, rest) = split_pending(pending_tmp, &params.files);
    ws.pending = rest;
    cm.changes.append(&mut sel);
    br.commits.insert(ci, cm);
    st.branches.insert(bi, br);
    proof {
        assert(st.branches@[bi as int].commits@ =~= ob[bi as int].commits@.update(
            ci as int,
            st.branches@[bi as int].commits@[ci as int],
        ));
        assert(st.branches@ =~= ob.update(bi as int, st.branches@[bi as int]));
        assert(forall|j: int|
            0 <= j < ob.len() ==> (#[trigger] st.branches@[j]).commits@.len()
                == ob[j].commits@.len());
        lemma_commits_before_congruence(st.branches@, ob, bi as int);
        assert(affected_count(st.branches@, bi as int, ci as int) == affected_count(
            ob,
            bi as int,
            ci as int,
        ));
        assert(stack_ids_below(st, ws.next_id));
    }
    let ghost st_mid = st;
    let (st2, remap) = rebuild_commits(st, &mut ws.next_id, bi, ci);
    let new_cid = st2.branches[bi].commits[ci].id;
    ws.stacks.insert(si, st2);
    ws.snapshots.push(SnapshotEntry { message, success: true });
    ws.notifications.push(sid);
    proof {
        assert(ws.stacks@ =~= old_ws.stacks@.update(si as int, ws.stacks@[si as int]));
        assert(ws.snapshots@.subrange(0, old_ws.snapshots@.len() as int) =~= old_ws.snapshots@);
        assert forall|b: int, c: int|
            0 <= b < ob.len() && 0 <= c < ob[b].commits@.len() && is_affected(
                bi as int,
                ci as int,
                b,
                c,
            ) implies flat_index(st_mid.branches@, b, c) == flat_index(ob, b, c) by {
            lemma_commits_before_congruence(st_mid.branches@, ob, b);
        }
        assert forall|i: int| 0 <= i < ws.stacks@.len() implies branch_names_unique(
            #[trigger] ws.stacks@[i],
        ) by {
            assert(forall|j: int|
                0 <= j < ws.stacks@[i].branches@.len() ==> (#[trigger] ws.stacks@[i].branches@[j]).name
                    == old_ws.stacks@[i].branches@[j].name);
        }
        let mb = st_mid.branches@;
        let ghost cnt = affected_count(mb, bi as int, ci as int);
        assert forall|jj: int| 0 <= jj < ws.stacks@.len() implies stack_ids_below(
            #[trigger] ws.stacks@[jj],
            ws.next_id,
        ) by {
            if jj == si as int {
                let nst = ws.stacks@[jj];
                assert forall|b: int|
                    0 <= b < nst.branches@.len() implies branch_ids_below(
                    #[trigger] nst.branches@[b],
                    ws.next_id,
                ) by {
                    assert forall|c: int|
                        0 <= c < nst.branches@[b].commits@.len() implies (
                    #[trigger] nst.branches@[b].commits@[c]).id < ws.next_id by {
                        if is_affected(bi as int, ci as int, b, c) {
                            lemma_commits_before_mono(mb, 0, b);
                            if b < bi {
                                lemma_commits_before_mono(mb, b + 1, bi as int);
                            }
                            assert(flat_index(mb, b, c) < cnt);
                        } else {
                            assert(nst.branches@[b].commits@[c] == mb[b].commits@[c]);
                        }
                    }
                }
            } else {
                assert(ws.stacks@[jj] == old_ws.stacks@[jj]);
            }
        }
    }
    let out = AmendOutcome { commit_id: new_cid, stack_id: sid, remap };
    proof {
        assert(amend_applied(
            old_ws,
            *ws,
            *params,
            out.commit_id,
            out.stack_id,
            out.remap@,
            si as int,
            bi as int,
            ci as int,
        ));
        assert(amend_inner_post(old_ws, *ws, *params, Ok(out)));
    }
    Ok(out)
}

/// What a successful blank-commit insertion did, at stack index `si`, with
/// the parent commit at old position `(bi, ci)`: a fresh empty commit stands
/// where the parent stood, the parent and everything below moved one place
/// toward the base unchanged, and every commit above the insertion carries a
/// fresh identifier. `n0` for the rebuild is `w0.next_id + 1`, since the
/// inserted commit consumes one provisional identifier first.
pub open spec fn blank_applied(
    w0: Workspace,
    w1: Workspace,
    params: CreateBlankCommitParameters,
    remap: Seq<(u64, u64)>,
    si: int,
    bi: int,
    ci: int,
) -> bool {
    let ob = w0.stacks@[si].branches@;
    let nst = w1.stacks@[si];
    let n0 = w0.next_id + 1 as int;
    let cnt = affected_count(ob, bi, ci);
    &&& 0 <= si < w0.stacks@.len()
    &&& w0.stacks@[si].id == digits_value(params.stack_id@)
    &&& 0 <= bi < ob.len()
    &&& 0 <= ci < ob[bi].commits@.len()
    &&& ob[bi].commits@[ci].id == digits_value(params.parent_id@)
    &&& w1.stacks@ == w0.stacks@.update(si, nst)
    &&& nst.id == w0.stacks@[si].id
    &&& nst.name == w0.stacks@[si].name
    &&& nst.branches@.len() == ob.len()
    &&& forall|b: int|
        0 <= b < ob.len() && b != bi ==> branch_same_shape(ob[b], #[trigger] nst.branches@[b])
    &&& ({
        let nb = nst.branches@[bi];
        &&& nb.name == ob[bi].name
        &&& nb.description == ob[bi].description
        &&& nb.archived == ob[bi].archived
        &&& nb.commits@.len() == ob[bi].commits@.len() + 1
    })
    &&& forall|b: int, c: int|
        0 <= b < ob.len() && b != bi && 0 <= c < ob[b].commits@.len() && !is_affected(
            bi,
            ci,
            b,
            c,
        ) ==> #[trigger] nst.branches@[b].commits@[c] == ob[b].commits@[c]
    &&& forall|c: int|
        ci <= c < ob[bi].commits@.len() ==> #[trigger] nst.branches@[bi].commits@[c + 1]
            == ob[bi].commits@[c]
    &&& forall|b: int, c: int|
        0 <= b < ob.len() && 0 <= c < ob[b].commits@.len() && is_affected(bi, ci, b, c) && !(b
            == bi && c >= ci) ==> {
            let cm = #[trigger] nst.branches@[b].commits@[c];
            &&& cm.message == ob[b].commits@[c].message
            &&& cm.changes == ob[b].commits@[c].changes
            &&& cm.id == n0 + flat_index(ob, b, c)
        }
    &&& ({
        let cm = nst.branches@[bi].commits@[ci];
        &&& cm.message@ == composed(params.message_title@, params.message_body@)
        &&& cm.changes@.len() == 0
        &&& cm.id == n0 + flat_index(ob, bi, ci)
    })
    &&& remap_shape(remap, cnt, n0 as int)
    &&& forall|k: int| 0 <= k < remap.len() ==> (#[trigger] remap[k]).0 < remap[k].1
    &&& w1.pending == w0.pending
    &&& w1.assignments == w0.assignments
    &&& w1.workspace_commit == w0.workspace_commit
}

/// A successful blank-commit insertion as a whole: the insertion happened at
/// some position, a snapshot entry recorded the success, and the stack was
/// queued for notification.
pub open spec fn blank_ok(
    w0: Workspace,
    w1: Workspace,
    params: CreateBlankCommitParameters,
    remap: Seq<(u64, u64)>,
) -> bool {
    &&& exists|si: int, bi: int, ci: int| blank_applied(w0, w1, params, remap, si, bi, ci)
    &&& w1.snapshots@.len() == w0.snapshots@.len() + 1
    &&& w1.snapshots@.subrange(0, w0.snapshots@.len() as int) == w0.snapshots@
    &&& w1.snapshots@.last().success
    &&& w1.notifications@ == w0.notifications@.push(digits_value(params.stack_id@) as u64)
}

/// Everything blank-commit insertion guarantees: exact reference-error
/// conditions, the applied insertion with a full remap on success, an
/// untouched workspace or a lone failed snapshot entry on failure, and owed
/// success whenever the identifiers resolve and the identifier space
/// suffices.
pub open spec fn blank_post(
    w0: Workspace,
    w1: Workspace,
    params: CreateBlankCommitParameters,
    r: Result<Vec<(u64, u64)>, ToolError>,
) -> bool {
    &&& (match r {
            Ok(remap) => blank_ok(w0, w1, params, remap@),
            Err(e) => {
                &&& (e is Reference ==> w1 == w0)
                &&& (e is Engine ==> {
                    &&& w1.stacks == w0.stacks
                    &&& w1.pending == w0.pending
                    &&& w1.notifications == w0.notifications
                    &&& w1.snapshots@.len() == w0.snapshots@.len() + 1
                    &&& !w1.snapshots@.last().success
                })
                &&& (e is Reference || e is Engine)
            },
        })
    &&& ((r is Err && r->Err_0 is Reference) <==> !(all_digits(params.stack_id@) && digits_value(
            params.stack_id@,
        ) <= u64::MAX && all_digits(params.parent_id@) && digits_value(params.parent_id@)
            <= u64::MAX && (exists|k: int|
            0 <= k < w0.stacks@.len() && (#[trigger] w0.stacks@[k]).id == digits_value(
                params.stack_id@,
            ) && stack_has_commit(w0.stacks@[k], digits_value(params.parent_id@) as u64))))
    &&& ((exists|k: int|
            0 <= k < w0.stacks@.len() && (#[trigger] w0.stacks@[k]).id == digits_value(
                params.stack_id@,
            ) && stack_has_commit(w0.stacks@[k], digits_value(params.parent_id@) as u64)
                && w0.next_id + stack_total_commits(w0.stacks@[k]) + 1 <= u64::MAX)
            && all_digits(params.stack_id@) && digits_value(params.stack_id@) <= u64::MAX
            && all_digits(params.parent_id@) && digits_value(params.parent_id@) <= u64::MAX
            ==> r is Ok)
}

/// Insert a brand-new empty commit immediately above `parent_id` on the given
/// stack. Every commit above the insertion point is rebuilt; the returned
/// remap lists one `(old, new)` pair per commit at or above the insertion,
/// the inserted commit included (its old identifier is the provisional one it
/// was first materialized under), and no pair relates an identifier to
/// itself. The stack is queued for notification only after a successful
/// insertion.
#[verifier::spinoff_prover]
#[verifier::rlimit(60)]
pub fn create_blank_commit(ws: &mut Workspace, params: &CreateBlankCommitParameters) -> (r: Result<
    Vec<(u64, u64)>,
    ToolError,
>)
    requires
        ws_wf(*old(ws)),
    ensures
        ws_wf(*final(ws)),
        blank_post(*old(ws), *final(ws), *params, r),
{
    let ghost old_ws = *ws;
    let sid = match parse_id(params.stack_id.as_str()) {
        Some(v) => v,
        None => {
            return Err(ToolError::Reference("stack id does not parse".to_owned()));
        },
    };
    let pid = match parse_id(params.parent_id.as_str()) {
        Some(v) => v,
        None => {
            return Err(ToolError::Reference("parent id does not parse".to_owned()));
        },
    };
    let si = match find_stack_by_id(&ws.stacks, sid) {
        Some(si) => si,
        None => {
            return Err(ToolError::Reference("no stack with this id".to_owned()));
        },
    };
    let (bi, ci) = match find_commit_in_stack(&ws.stacks[si], pid) {
        Some(p) => p,
        None => {
            proof {
                assert forall|k: int|
                    0 <= k < old_ws.stacks@.len() && (#[trigger] old_ws.stacks@[k]).id
                        == sid implies !stack_has_commit(old_ws.stacks@[k], pid) by {
                    assert(k == si as int);
                }
            }
            return Err(ToolError::Reference("no commit with this id on the stack".to_owned()));
        },
    };
    let message = compose_message(params.message_title.as_str(), params.message_body.as_str());
    if ws.next_id == u64::MAX || !rebuild_headroom(&ws.stacks[si], ws.next_id + 1, bi, ci) {
        proof {
            lemma_affected_le_total(old_ws.stacks@[si as int], bi as int, ci as int);
            lemma_commits_before_mono(old_ws.stacks@[si as int].branches@, 0, bi as int);
            assert forall|k: int|
                0 <= k < old_ws.stacks@.len() && (#[trigger] old_ws.stacks@[k]).id
                    == sid implies !(old_ws.next_id + stack_total_commits(old_ws.stacks@[k]) + 1
                <= u64::MAX) by {
                assert(k == si as int);
            }
        }
        ws.snapshots.push(SnapshotEntry { message, success: false });
        return Err(ToolError::Engine("identifier space exhausted".to_owned()));
    }
    let mut st = ws.stacks.remove(si);
    let ghost ob = st.branches@;
    let p0 = match ws.fresh_id() {
        Ok(id) => id,
        Err(()) => {
            proof {
                assert(false);
            }
            return Err(ToolError::Engine("identifier space exhausted".to_owned()));
        },
    };
    let mut br = st.branches.remove(bi);
    br.commits.insert(
        ci,
        CommitEntry { id: p0, message: message.clone(), changes: Vec::new() },
    );
    st.branches.insert(bi, br);
    proof {
        assert(st.branches@ =~= ob.update(bi as int, st.branches@[bi as int]));
        lemma_commits_before_congruence(st.branches@, ob, bi as int);
        assert(affected_count(st.branches@, bi as int, ci as int) == affected_count(
            ob,
            bi as int,
            ci as int,
        ));
        assert(stack_ids_below(st, ws.next_id));
    }
    let ghost st_mid = st;
    let (st2, remap) = rebuild_commits(st, &mut ws.next_id, bi, ci);
    ws.stacks.insert(si, st2);
    ws.snapshots.push(SnapshotEntry { message, success: true });
    ws.notifications.push(sid);
    proof {
        assert(ws.stacks@ =~= old_ws.stacks@.update(si as int, ws.stacks@[si as int]));
        assert(ws.snapshots@.subrange(0, old_ws.snapshots@.len() as int) =~= old_ws.snapshots@);
        let mb = st_mid.branches@;
        let ghost cnt = affected_count(mb, bi as int, ci as int);
        assert forall|b: int, c: int|
            0 <= b < ob.len() && 0 <= c < ob[b].commits@.len() && is_affected(
                bi as int,
                ci as int,
                b,
                c,
            ) implies flat_index(mb, b, c) == flat_index(ob, b, c) by {
            lemma_commits_before_congruence(mb, ob, b);
        }
        assert forall|i: int| 0 <= i < ws.stacks@.len() implies branch_names_unique(
            #[trigger] ws.stacks@[i],
        ) by {
            assert(forall|j: int|
                0 <= j < ws.stacks@[i].branches@.len() ==> (#[trigger] ws.stacks@[i].branches@[j]).name
                    == old_ws.stacks@[i].branches@[j].name);
        }
        assert forall|jj: int| 0 <= jj < ws.stacks@.len() implies stack_ids_below(
            #[trigger] ws.stacks@[jj],
            ws.next_id,
        ) by {
            if jj == si as int {
                let nst = ws.stacks@[jj];
                assert forall|b: int|
                    0 <= b < nst.branches@.len() implies branch_ids_below(
                    #[trigger] nst.branches@[b],
                    ws.next_id,
                ) by {
                    assert forall|c: int|
                        0 <= c < nst.branches@[b].commits@.len() implies (
                    #[trigger] nst.branches@[b].commits@[c]).id < ws.next_id by {
                        if is_affected(bi as int, ci as int, b, c) {
                            lemma_commits_before_mono(mb, 0, b);
                            if b < bi {
                                lemma_commits_before_mono(mb, b + 1, bi as int);
                            }
                            assert(flat_index(mb, b, c) < cnt);
                        } else {
                            assert(nst.branches@[b].commits@[c] == mb[b].commits@[c]);
                        }
                    }
                }
            } else {
                assert(ws.stacks@[jj] == old_ws.stacks@[jj]);
            }
        }
        assert(blank_applied(old_ws, *ws, *params, remap@, si as int, bi as int, ci as int));
        assert(blank_ok(old_ws, *ws, *params, remap@));
        assert(blank_post(old_ws, *ws, *params, Ok(remap)));
    }
    Ok(remap)
}

/// Everything the outer amend guarantees: the same outcome as the inner
/// amend, with the remap list dropped from the reported value.
pub open spec fn amend_post(
    w0: Workspace,
    w1: Workspace,
    params: AmendParameters,
    r: Result<CommitOutcome, ToolError>,
) -> bool {
    exists|ir: Result<AmendOutcome, ToolError>|
        #[trigger] amend_inner_post(w0, w1, params, ir) && (match ir {
            Ok(o) => r == Ok::<CommitOutcome, ToolError>(
                CommitOutcome { commit_id: o.commit_id, stack_id: o.stack_id },
            ),
            Err(e) => r == Err::<CommitOutcome, ToolError>(e),
        })
}

/// Amend a commit, reporting only the new commit identifier and its stack:
/// the outcome is the inner amend's, with the remap dropped.
pub fn amend_commit(ws: &mut Workspace, params: &AmendParameters) -> (r: Result<
    CommitOutcome,
    ToolError,
>)
    requires
        ws_wf(*old(ws)),
    ensures
        ws_wf(*final(ws)),
        amend_post(*old(ws), *final(ws), *params, r),
{
    let ghost old_ws = *ws;
    let inner = amend_commit_inner(ws, params);
    let ghost gi = inner;
    let r = match inner {
        Ok(out) => Ok(CommitOutcome { commit_id: out.commit_id, stack_id: out.stack_id }),
        Err(e) => Err(e),
    };
    proof {
        assert(amend_inner_post(old_ws, *ws, *params, gi));
        assert(amend_post(old_ws, *ws, *params, r));
    }
    r
}

/// Number of commits at or above `(bi, ci)`, as a machine integer; `None`
/// when the count exceeds the identifier space.
pub fn affected_count_u64(st: &Stack, bi: usize, ci: usize) -> (r: Option<u64>)
    requires
        bi < st.branches@.len(),
        ci < st.branches@[bi as int].commits@.len(),
    ensures
        match r {
            Some(v) => v == affected_count(st.branches@, bi as int, ci as int),
            None => affected_count(st.branches@, bi as int, ci as int) > u64::MAX,
        },
{
    let ghost ob = st.branches@;
    let mut acc: u64 = 0;
    let mut b: usize = 0;
    while b < bi
        invariant
            b <= bi < ob.len(),
            ob == st.branches@,
            ci < ob[bi as int].commits@.len(),
            acc == commits_before(ob, b as int),
        decreases bi - b,
    {
        let l = st.branches[b].commits.len() as u64;
        if acc > u64::MAX - l {
            proof {
                lemma_commits_before_mono(ob, b + 1, bi as int);
            }
            return None;
        }
        acc = acc + l;
        b = b + 1;
    }
    let ci64 = ci as u64;
    if acc > u64::MAX - ci64 {
        return None;
    }
    let t = acc + ci64;
    if t == u64::MAX {
        return None;
    }
    Some(t + 1)
}

/// A stack after one of its commits had its content replaced and the commits
/// at and above position `(bi, ci)` were rebuilt with fresh identifiers from
/// `n0`. The target commit keeps its message; `changes` is its new content.
pub open spec fn stack_after_content_rebuild(
    ost: Stack,
    nst: Stack,
    bi: int,
    ci: int,
    n0: int,
    changes: Seq<CommitChange>,
) -> bool {
    let ob = ost.branches@;
    &&& 0 <= bi < ob.len()
    &&& 0 <= ci < ob[bi].commits@.len()
    &&& nst.id == ost.id
    &&& nst.name == ost.name
    &&& nst.branches@.len() == ob.len()
    &&& forall|b: int|
        0 <= b < ob.len() ==> branch_same_shape(ob[b], #[trigger] nst.branches@[b])
    &&& forall|b: int, c: int|
        0 <= b < ob.len() && 0 <= c < ob[b].commits@.len() && !is_affected(bi, ci, b, c)
            ==> #[trigger] nst.branches@[b].commits@[c] == ob[b].commits@[c]
    &&& forall|b: int, c: int|
        0 <= b < ob.len() && 0 <= c < ob[b].commits@.len() && is_affected(bi, ci, b, c) && !(b
            == bi && c == ci) ==> {
            let cm = #[trigger] nst.branches@[b].commits@[c];
            &&& cm.message == ob[b].commits@[c].message
            &&& cm.changes == ob[b].commits@[c].changes
            &&& cm.id == n0 + flat_index(ob, b, c)
        }
    &&& ({
        let cm = nst.branches@[bi].commits@[ci];
        &&& cm.message == ob[bi].commits@[ci].message
        &&& cm.changes@ == changes
        &&& cm.id == n0 + flat_index(ob, bi, ci)
    })
}

/// What a successful move between two distinct stacks did: the selected
/// file-level changes left the source commit's content and joined the
/// destination commit's content; each commit at or above either target was
/// rebuilt under a fresh identifier, source stack first; and the aggregate
/// workspace commit was recomputed.
pub open spec fn move_applied_two(
    w0: Workspace,
    w1: Workspace,
    params: MoveFileChangesParameters,
    remap: Seq<(u64, u64)>,
    ssi: int,
    bs: int,
    cs: int,
    dsi: int,
    bd: int,
    cd: int,
) -> bool {
    let oss = w0.stacks@[ssi];
    let ods = w0.stacks@[dsi];
    let nss = w1.stacks@[ssi];
    let nds = w1.stacks@[dsi];
    let n0 = w0.next_id as int;
    let cnt_s = affected_count(oss.branches@, bs, cs);
    let cnt_d = affected_count(ods.branches@, bd, cd);
    let src_changes = oss.branches@[bs].commits@[cs].changes@;
    &&& 0 <= ssi < w0.stacks@.len()
    &&& 0 <= dsi < w0.stacks@.len()
    &&& ssi != dsi
    &&& oss.id == digits_value(params.source_stack_id@)
    &&& ods.id == digits_value(params.destination_stack_id@)
    &&& 0 <= bs < oss.branches@.len() && 0 <= cs < oss.branches@[bs].commits@.len()
    &&& 0 <= bd < ods.branches@.len() && 0 <= cd < ods.branches@[bd].commits@.len()
    &&& oss.branches@[bs].commits@[cs].id == digits_value(params.source_commit_id@)
    &&& ods.branches@[bd].commits@[cd].id == digits_value(params.destination_commit_id@)
    &&& w1.stacks@ == w0.stacks@.update(ssi, nss).update(dsi, nds)
    &&& stack_after_content_rebuild(
        oss,
        nss,
        bs,
        cs,
        n0,
        unselected_commit_changes(src_changes, params.files@),
    )
    &&& stack_after_content_rebuild(
        ods,
        nds,
        bd,
        cd,
        n0 + cnt_s,
        ods.branches@[bd].commits@[cd].changes@ + selected_commit_changes(
            src_changes,
            params.files@,
        ),
    )
    &&& remap.len() == cnt_s + cnt_d
    &&& forall|k: int|
        0 <= k < remap.len() ==> (#[trigger] remap[k]).1 == n0 + k && remap[k].0 < remap[k].1
    &&& w1.pending == w0.pending
    &&& w1.assignments == w0.assignments
    &&& w1.workspace_commit == w1.next_id - 1
    &&& w1.next_id == n0 + cnt_s + cnt_d + 1
}

/// What a successful move within one stack did: content moved between the two
/// commits, and everything at or above the lower of the two positions was
/// rebuilt under fresh identifiers.
pub open spec fn move_applied_same(
    w0: Workspace,
    w1: Workspace,
    params: MoveFileChangesParameters,
    remap: Seq<(u64, u64)>,
    si: int,
    bs: int,
    cs: int,
    bd: int,
    cd: int,
) -> bool {
    let ost = w0.stacks@[si];
    let nst = w1.stacks@[si];
    let ob = ost.branches@;
    let n0 = w0.next_id as int;
    let lower_is_src = bs > bd || (bs == bd && cs > cd);
    let lb = if lower_is_src { bs } else { bd };
    let lc = if lower_is_src { cs } else { cd };
    let cnt = affected_count(ob, lb, lc);
    let src_changes = ob[bs].commits@[cs].changes@;
    &&& 0 <= si < w0.stacks@.len()
    &&& ost.id == digits_value(params.source_stack_id@)
    &&& ost.id == digits_value(params.destination_stack_id@)
    &&& 0 <= bs < ob.len() && 0 <= cs < ob[bs].commits@.len()
    &&& 0 <= bd < ob.len() && 0 <= cd < ob[bd].commits@.len()
    &&& !(bs == bd && cs == cd)
    &&& ob[bs].commits@[cs].id == digits_value(params.source_commit_id@)
    &&& ob[bd].commits@[cd].id == digits_value(params.destination_commit_id@)
    &&& w1.stacks@ == w0.stacks@.update(si, nst)
    &&& nst.id == ost.id
    &&& nst.name == ost.name
    &&& nst.branches@.len() == ob.len()
    &&& forall|b: int|
        0 <= b < ob.len() ==> branch_same_shape(ob[b], #[trigger] nst.branches@[b])
    &&& forall|b: int, c: int|
        0 <= b < ob.len() && 0 <= c < ob[b].commits@.len() && !is_affected(lb, lc, b, c)
            ==> #[trigger] nst.branches@[b].commits@[c] == ob[b].commits@[c]
    &&& forall|b: int, c: int|
        0 <= b < ob.len() && 0 <= c < ob[b].commits@.len() && is_affected(lb, lc, b, c) && !(b
            == bs && c == cs) && !(b == bd && c == cd) ==> {
            let cm = #[trigger] nst.branches@[b].commits@[c];
            &&& cm.message == ob[b].commits@[c].message
            &&& cm.changes == ob[b].commits@[c].changes
            &&& cm.id == n0 + flat_index(ob, b, c)
        }
    &&& ({
        let cm = nst.branches@[bs].commits@[cs];
        &&& cm.message == ob[bs].commits@[cs].message
        &&& cm.changes@ == unselected_commit_changes(src_changes, params.files@)
        &&& cm.id == n0 + flat_index(ob, bs, cs)
    })
    &&& ({
        let cm = nst.branches@[bd].commits@[cd];
        &&& cm.message == ob[bd].commits@[cd].message
        &&& cm.changes@ == ob[bd].commits@[cd].changes@ + selected_commit_changes(
            src_changes,
            params.files@,
        )
        &&& cm.id == n0 + flat_index(ob, bd, cd)
    })
    &&& remap.len() == cnt
    &&& forall|k: int|
        0 <= k < remap.len() ==> (#[trigger] remap[k]).1 == n0 + k && remap[k].0 < remap[k].1
    &&& w1.pending == w0.pending
    &&& w1.assignments == w0.assignments
    &&& w1.workspace_commit == w1.next_id - 1
    &&& w1.next_id == n0 + cnt + 1
}

/// A successful move as a whole: applied across two stacks or within one,
/// with a snapshot entry recording the success and both stacks queued for
/// notification (source first).
pub open spec fn move_ok(
    w0: Workspace,
    w1: Workspace,
    params: MoveFileChangesParameters,
    remap: Seq<(u64, u64)>,
) -> bool {
    &&& if digits_value(params.source_stack_id@) != digits_value(
        params.destination_stack_id@,
    ) {
        exists|ssi: int, bs: int, cs: int, dsi: int, bd: int, cd: int|
            move_applied_two(w0, w1, params, remap, ssi, bs, cs, dsi, bd, cd)
    } else {
        exists|si: int, bs: int, cs: int, bd: int, cd: int|
            move_applied_same(w0, w1, params, remap, si, bs, cs, bd, cd)
    }
    &&& w1.snapshots@.len() == w0.snapshots@.len() + 1
    &&& w1.snapshots@.subrange(0, w0.snapshots@.len() as int) == w0.snapshots@
    &&& w1.snapshots@.last().success
    &&& w1.notifications@ == w0.notifications@.push(
        digits_value(params.source_stack_id@) as u64,
    ).push(digits_value(params.destination_stack_id@) as u64)
}

/// Total number of commits in the stack.
pub open spec fn stack_total_commits(s: Stack) -> int {
    commits_before(s.branches@, s.branches@.len() as int)
}

/// The rebuilt region is never larger than the whole stack.
pub proof fn lemma_affected_le_total(s: Stack, bi: int, ci: int)
    requires
        0 <= bi < s.branches@.len(),
        0 <= ci < s.branches@[bi].commits@.len(),
    ensures
        affected_count(s.branches@, bi, ci) <= stack_total_commits(s),
{
    let ob = s.branches@;
    assert(commits_before(ob, bi + 1) == commits_before(ob, bi) + ob[bi].commits@.len());
    lemma_commits_before_mono(ob, bi + 1, ob.len() as int);
}

/// Everything moving file changes guarantees: exact reference-error
/// conditions, the applied move with a full remap on success, an untouched
/// workspace or a lone failed snapshot entry on failure, and owed success
/// whenever the identifiers resolve, the two commits differ, and the
/// identifier space suffices.
pub open spec fn move_post(
    w0: Workspace,
    w1: Workspace,
    params: MoveFileChangesParameters,
    r: Result<Vec<(u64, u64)>, ToolError>,
) -> bool {
    &&& (match r {
            Ok(remap) => move_ok(w0, w1, params, remap@),
            Err(e) => {
                &&& (e is Reference ==> w1 == w0)
                &&& (e is Engine ==> {
                    &&& w1.stacks == w0.stacks
                    &&& w1.pending == w0.pending
                    &&& w1.notifications == w0.notifications
                    &&& w1.snapshots@.len() == w0.snapshots@.len() + 1
                    &&& !w1.snapshots@.last().success
                })
                &&& (e is Reference || e is Engine)
            },
        })
    &&& ((r is Err && r->Err_0 is Reference) <==> !(all_digits(params.source_stack_id@)
            && digits_value(params.source_stack_id@) <= u64::MAX && all_digits(
            params.source_commit_id@,
        ) && digits_value(params.source_commit_id@) <= u64::MAX && all_digits(
            params.destination_stack_id@,
        ) && digits_value(params.destination_stack_id@) <= u64::MAX && all_digits(
            params.destination_commit_id@,
        ) && digits_value(params.destination_commit_id@) <= u64::MAX && (exists|k: int|
            0 <= k < w0.stacks@.len() && (#[trigger] w0.stacks@[k]).id == digits_value(
                params.source_stack_id@,
            ) && stack_has_commit(
                w0.stacks@[k],
                digits_value(params.source_commit_id@) as u64,
            )) && (exists|k: int|
            0 <= k < w0.stacks@.len() && (#[trigger] w0.stacks@[k]).id == digits_value(
                params.destination_stack_id@,
            ) && stack_has_commit(
                w0.stacks@[k],
                digits_value(params.destination_commit_id@) as u64,
            ))))
    &&& ((exists|k1: int, k2: int|
            0 <= k1 < w0.stacks@.len() && 0 <= k2 < w0.stacks@.len() && (
            #[trigger] w0.stacks@[k1]).id == digits_value(params.source_stack_id@) && (
            #[trigger] w0.stacks@[k2]).id == digits_value(params.destination_stack_id@)
                && stack_has_commit(
                w0.stacks@[k1],
                digits_value(params.source_commit_id@) as u64,
            ) && stack_has_commit(
                w0.stacks@[k2],
                digits_value(params.destination_commit_id@) as u64,
            ) && w0.next_id + stack_total_commits(w0.stacks@[k1])
                + stack_total_commits(w0.stacks@[k2]) + 1 <= u64::MAX) && all_digits(
            params.source_stack_id@,
        ) && digits_value(params.source_stack_id@) <= u64::MAX && all_digits(
            params.source_commit_id@,
        ) && digits_value(params.source_commit_id@) <= u64::MAX && all_digits(
            params.destination_stack_id@,
        ) && digits_value(params.destination_stack_id@) <= u64::MAX && all_digits(
            params.destination_commit_id@,
        ) && digits_value(params.destination_commit_id@) <= u64::MAX && !(digits_value(
            params.source_stack_id@,
        ) == digits_value(params.destination_stack_id@) && digits_value(params.source_commit_id@)
            == digits_value(params.destination_commit_id@)) ==> r is Ok)
}

/// Move the named file-level changes from the source commit's content to the
/// destination commit's content. Both commits and every commit above either
/// are rebuilt under fresh identifiers, source stack first, and the aggregate
/// workspace commit is recomputed before returning. Identifier or lookup
/// failures leave the workspace untouched; an exhausted identifier space or a
/// move onto the very same commit is an engine error recorded in the snapshot
/// log.
#[verifier::spinoff_prover]
#[verifier::rlimit(100)]
pub fn move_file_changes(ws: &mut Workspace, params: &MoveFileChangesParameters) -> (r: Result<
    Vec<(u64, u64)>,
    ToolError,
>)
    requires
        ws_wf(*old(ws)),
    ensures
        ws_wf(*final(ws)),
        move_post(*old(ws), *final(ws), *params, r),
{
    let ghost old_ws = *ws;
    let ssid = match parse_id(params.source_stack_id.as_str()) {
        Some(v) => v,
        None => {
            return Err(ToolError::Reference("source stack id does not parse".to_owned()));
        },
    };
    let scid = match parse_id(params.source_commit_id.as_str()) {
        Some(v) => v,
        None => {
            return Err(ToolError::Reference("source commit id does not parse".to_owned()));
        },
    };
    let dsid = match parse_id(params.destination_stack_id.as_str()) {
        Some(v) => v,
        None => {
            return Err(ToolError::Reference("destination stack id does not parse".to_owned()));
        },
    };
    let dcid = match parse_id(params.destination_commit_id.as_str()) {
        Some(v) => v,
        None => {
            return Err(ToolError::Reference("destination commit id does not parse".to_owned()));
        },
    };
    let ssi = match find_stack_by_id(&ws.stacks, ssid) {
        Some(i) => i,
        None => {
            return Err(ToolError::Reference("no stack with the source stack id".to_owned()));
        },
    };
    let dsi = match find_stack_by_id(&ws.stacks, dsid) {
        Some(i) => i,
        None => {
            return Err(ToolError::Reference("no stack with the destination stack id".to_owned()));
        },
    };
    let (bs, cs) = match find_commit_in_stack(&ws.stacks[ssi], scid) {
        Some(p) => p,
        None => {
            proof {
                assert forall|k: int|
                    0 <= k < old_ws.stacks@.len() && (#[trigger] old_ws.stacks@[k]).id
                        == ssid implies !stack_has_commit(old_ws.stacks@[k], scid) by {
                    assert(k == ssi as int);
                }
            }
            return Err(ToolError::Reference("source commit not found on its stack".to_owned()));
        },
    };
    let (bd, cd) = match find_commit_in_stack(&ws.stacks[dsi], dcid) {
        Some(p) => p,
        None => {
            proof {
                assert forall|k: int|
                    0 <= k < old_ws.stacks@.len() && (#[trigger] old_ws.stacks@[k]).id
                        == dsid implies !stack_has_commit(old_ws.stacks@[k], dcid) by {
                    assert(k == dsi as int);
                }
            }
            return Err(
                ToolError::Reference("destination commit not found on its stack".to_owned()),
            );
        },
    };
    proof {
        assert forall|k: int|
            0 <= k < old_ws.stacks@.len() && (#[trigger] old_ws.stacks@[k]).id
                == ssid implies k == ssi as int by {}
        assert forall|k: int|
            0 <= k < old_ws.stacks@.len() && (#[trigger] old_ws.stacks@[k]).id
                == dsid implies k == dsi as int by {}
    }
    if ssi == dsi {
        proof {
            assert(bs == bd && cs == cd ==> scid == dcid);
        }
        move_within_stack(ws, params, ssi, bs, cs, bd, cd)
    } else {
        move_between_stacks(ws, params, ssi, bs, cs, dsi, bd, cd)
    }
}

/// An empty selection selects nothing and leaves everything: the selected
/// part is empty and the unselected part is the whole list.
pub proof fn lemma_empty_selection(pending: Seq<WorktreeChange>, files: Seq<String>)
    requires
        files.len() == 0,
    ensures
        selected_changes(pending, files) == Seq::<CommitChange>::empty(),
        unselected_changes(pending, files) == pending,
    decreases pending.len(),
{
    if pending.len() > 0 {
        lemma_empty_selection(pending.drop_last(), files);
        assert(!path_selected(files, pending.last().path@));
        assert(unselected_changes(pending, files) =~= pending);
    }
}

/// Amending with an empty selection changes only the message: the amended
/// commit's content-affecting file set is exactly what it was, and the
/// pending changes are untouched.
pub proof fn lemma_amend_empty_selection(
    w0: Workspace,
    w1: Workspace,
    params: AmendParameters,
    commit_id: u64,
    stack_id: u64,
    remap: Seq<(u64, u64)>,
    si: int,
    bi: int,
    ci: int,
)
    requires
        amend_applied(w0, w1, params, commit_id, stack_id, remap, si, bi, ci),
        params.files@.len() == 0,
    ensures
        w1.stacks@[si].branches@[bi].commits@[ci].changes@
            == w0.stacks@[si].branches@[bi].commits@[ci].changes@,
        unselected_changes(w0.pending@, params.files@) == w0.pending@,
{
    lemma_empty_selection(w0.pending@, params.files@);
    assert(w1.stacks@[si].branches@[bi].commits@[ci].changes@
        =~= w0.stacks@[si].branches@[bi].commits@[ci].changes@);
}

/// In a remap list of the given shape, no commit keeps its identifier: every
/// pair's two sides differ.
pub proof fn lemma_remap_pairs_distinct(remap: Seq<(u64, u64)>, cnt: int, n0: int)
    requires
        remap_shape(remap, cnt, n0),
    ensures
        forall|k: int| 0 <= k < remap.len() ==> (#[trigger] remap[k]).0 != remap[k].1,
{
}

proof fn lemma_rebuilt_ids_below(mb: Seq<Branch>, nst: Stack, bi: int, ci: int, n0: int, bound: u64)
    requires
        nst.branches@.len() == mb.len(),
        0 <= bi < mb.len(),
        0 <= ci < mb[bi].commits@.len(),
        forall|b: int|
            0 <= b < mb.len() ==> (#[trigger] nst.branches@[b]).commits@.len()
                == mb[b].commits@.len(),
        forall|b: int, c: int|
            0 <= b < mb.len() && 0 <= c < mb[b].commits@.len() && !is_affected(bi, ci, b, c)
                ==> #[trigger] nst.branches@[b].commits@[c] == mb[b].commits@[c],
        forall|b: int, c: int|
            0 <= b < mb.len() && 0 <= c < mb[b].commits@.len() && is_affected(bi, ci, b, c)
                ==> (#[trigger] nst.branches@[b].commits@[c]).id == n0 + flat_index(mb, b, c),
        forall|b: int, c: int|
            0 <= b < mb.len() && 0 <= c < mb[b].commits@.len() ==> (
            #[trigger] mb[b].commits@[c]).id < n0,
        n0 + affected_count(mb, bi, ci) <= bound,
        0 <= n0,
    ensures
        stack_ids_below(nst, bound),
{
    assert forall|b: int| 0 <= b < nst.branches@.len() implies branch_ids_below(
        #[trigger] nst.branches@[b],
        bound,
    ) by {
        assert forall|c: int| 0 <= c < nst.branches@[b].commits@.len() implies (
        #[trigger] nst.branches@[b].commits@[c]).id < bound by {
            lemma_commits_before_mono(mb, 0, bi);
            if is_affected(bi, ci, b, c) {
                lemma_commits_before_mono(mb, 0, b);
                if b < bi {
                    lemma_commits_before_mono(mb, b + 1, bi);
                }
                assert(flat_index(mb, b, c) < affected_count(mb, bi, ci));
            }
        }
    }
}

/// Move between two distinct stacks; see `move_file_changes`.
#[verifier::spinoff_prover]
#[verifier::rlimit(100)]
fn move_between_stacks(
    ws: &mut Workspace,
    params: &MoveFileChangesParameters,
    ssi: usize,
    bs: usize,
    cs: usize,
    dsi: usize,
    bd: usize,
    cd: usize,
) -> (r: Result<Vec<(u64, u64)>, ToolError>)
    requires
        ws_wf(*old(ws)),
        ssi < old(ws).stacks@.len(),
        dsi < old(ws).stacks@.len(),
        ssi != dsi,
        old(ws).stacks@[ssi as int].id == digits_value(params.source_stack_id@),
        old(ws).stacks@[dsi as int].id == digits_value(params.destination_stack_id@),
        bs < old(ws).stacks@[ssi as int].branches@.len(),
        cs < old(ws).stacks@[ssi as int].branches@[bs as int].commits@.len(),
        bd < old(ws).stacks@[dsi as int].branches@.len(),
        cd < old(ws).stacks@[dsi as int].branches@[bd as int].commits@.len(),
        old(ws).stacks@[ssi as int].branches@[bs as int].commits@[cs as int].id == digits_value(
            params.source_commit_id@,
        ),
        old(ws).stacks@[dsi as int].branches@[bd as int].commits@[cd as int].id == digits_value(
            params.destination_commit_id@,
        ),
    ensures
        ws_wf(*final(ws)),
        match r {
            Ok(remap) => move_ok(*old(ws), *final(ws), *params, remap@),
            Err(e) => {
                &&& e is Engine
                &&& final(ws).stacks == old(ws).stacks
                &&& final(ws).pending == old(ws).pending
                &&& final(ws).notifications == old(ws).notifications
                &&& final(ws).snapshots@.len() == old(ws).snapshots@.len() + 1
                &&& !final(ws).snapshots@.last().success
            },
        },
        old(ws).next_id + stack_total_commits(old(ws).stacks@[ssi as int]) + stack_total_commits(
            old(ws).stacks@[dsi as int],
        ) + 1 <= u64::MAX ==> r is Ok,
{
    proof {
        lemma_commits_before_mono(old(ws).stacks@[ssi as int].branches@, 0, bs as int);
        lemma_commits_before_mono(old(ws).stacks@[dsi as int].branches@, 0, bd as int);
        lemma_affected_le_total(old(ws).stacks@[ssi as int], bs as int, cs as int);
        lemma_affected_le_total(old(ws).stacks@[dsi as int], bd as int, cd as int);
    }
    let ghost old_ws = *ws;
    let ssid = ws.stacks[ssi].id;
    let dsid = ws.stacks[dsi].id;
    let cnt_s = match affected_count_u64(&ws.stacks[ssi], bs, cs) {
        Some(v) => v,
        None => {
            ws.snapshots.push(SnapshotEntry { message: String::new(), success: false });
            return Err(ToolError::Engine("identifier space exhausted".to_owned()));
        },
    };
    let cnt_d = match affected_count_u64(&ws.stacks[dsi], bd, cd) {
        Some(v) => v,
        None => {
            ws.snapshots.push(SnapshotEntry { message: String::new(), success: false });
            return Err(ToolError::Engine("identifier space exhausted".to_owned()));
        },
    };
    if cnt_s > u64::MAX - cnt_d {
        ws.snapshots.push(SnapshotEntry { message: String::new(), success: false });
        return Err(ToolError::Engine("identifier space exhausted".to_owned()));
    }
    let tot = cnt_s + cnt_d;
    if tot == u64::MAX || ws.next_id > u64::MAX - tot - 1 {
        ws.snapshots.push(SnapshotEntry { message: String::new(), success: false });
        return Err(ToolError::Engine("identifier space exhausted".to_owned()));
    }
    let ghost n0 = ws.next_id as int;
    let mut st = ws.stacks.remove(ssi);
    let ghost obs = st.branches@;
    let mut br = st.branches.remove(bs);
    let cm = br.commits.remove(cs);
    let CommitEntry { id: cmid, message: cmmsg, changes: cmch } = cm;
    let ghost src_changes = cmch@;
    let (mut sel, rest) = split_commit_changes(cmch, &params.files);
    br.commits.insert(cs, CommitEntry { id: cmid, message: cmmsg, changes: rest });
    st.branches.insert(bs, br);
    proof {
        assert(st.branches@[bs as int].commits@ =~= obs[bs as int].commits@.update(
            cs as int,
            st.branches@[bs as int].commits@[cs as int],
        ));
        assert(st.branches@ =~= obs.update(bs as int, st.branches@[bs as int]));
        lemma_commits_before_congruence(st.branches@, obs, bs as int);
        assert(affected_count(st.branches@, bs as int, cs as int) == cnt_s);
        assert(stack_ids_below(st, ws.next_id));
    }
    let ghost smid = st;
    let (st2, mut remap) = rebuild_commits(st, &mut ws.next_id, bs, cs);
    ws.stacks.insert(ssi, st2);
    proof {
        assert(ws.stacks@ =~= old_ws.stacks@.update(ssi as int, ws.stacks@[ssi as int]));
        assert forall|b: int, c: int|
            0 <= b < obs.len() && 0 <= c < obs[b].commits@.len() && is_affected(
                bs as int,
                cs as int,
                b,
                c,
            ) implies flat_index(smid.branches@, b, c) == flat_index(obs, b, c) by {
            lemma_commits_before_congruence(smid.branches@, obs, b);
        }
        lemma_rebuilt_ids_below(
            smid.branches@,
            ws.stacks@[ssi as int],
            bs as int,
            cs as int,
            n0,
            ws.next_id,
        );
    }
    let ghost mid_ws = *ws;
    let ghost n1 = ws.next_id as int;
    let mut dt = ws.stacks.remove(dsi);
    proof {
        assert(dt == old_ws.stacks@[dsi as int]);
    }
    let ghost obd = dt.branches@;
    let mut dbr = dt.branches.remove(bd);
    let mut dcm = dbr.commits.remove(cd);
    dcm.changes.append(&mut sel);
    dbr.commits.insert(cd, dcm);
    dt.branches.insert(bd, dbr);
    proof {
        assert(dt.branches@[bd as int].commits@ =~= obd[bd as int].commits@.update(
            cd as int,
            dt.branches@[bd as int].commits@[cd as int],
        ));
        assert(dt.branches@ =~= obd.update(bd as int, dt.branches@[bd as int]));
        lemma_commits_before_congruence(dt.branches@, obd, bd as int);
        assert(affected_count(dt.branches@, bd as int, cd as int) == cnt_d);
        assert(stack_ids_below(dt, ws.next_id));
    }
    let ghost dmid = dt;
    let (dt2, mut remap_d) = rebuild_commits(dt, &mut ws.next_id, bd, cd);
    ws.stacks.insert(dsi, dt2);
    let ghost rs = remap@;
    let ghost rd = remap_d@;
    remap.append(&mut remap_d);
    let wcid = match ws.fresh_id() {
        Ok(id) => id,
        Err(()) => {
            proof {
                assert(false);
            }
            return Err(ToolError::Engine("identifier space exhausted".to_owned()));
        },
    };
    ws.workspace_commit = wcid;
    ws.snapshots.push(SnapshotEntry { message: String::new(), success: true });
    ws.notifications.push(ssid);
    ws.notifications.push(dsid);
    proof {
        assert(ws.stacks@ =~= old_ws.stacks@.update(ssi as int, ws.stacks@[ssi as int]).update(
            dsi as int,
            ws.stacks@[dsi as int],
        ));
        assert(ws.snapshots@.subrange(0, old_ws.snapshots@.len() as int) =~= old_ws.snapshots@);
        assert forall|b: int, c: int|
            0 <= b < obd.len() && 0 <= c < obd[b].commits@.len() && is_affected(
                bd as int,
                cd as int,
                b,
                c,
            ) implies flat_index(dmid.branches@, b, c) == flat_index(obd, b, c) by {
            lemma_commits_before_congruence(dmid.branches@, obd, b);
        }
        assert forall|i: int| 0 <= i < ws.stacks@.len() implies branch_names_unique(
            #[trigger] ws.stacks@[i],
        ) by {
            assert(forall|j: int|
                0 <= j < ws.stacks@[i].branches@.len() ==> (#[trigger] ws.stacks@[i].branches@[j]).name
                    == old_ws.stacks@[i].branches@[j].name);
        }
        assert forall|jj: int| 0 <= jj < ws.stacks@.len() implies stack_ids_below(
            #[trigger] ws.stacks@[jj],
            ws.next_id,
        ) by {
            if jj == dsi as int {
                lemma_rebuilt_ids_below(
                    dmid.branches@,
                    ws.stacks@[jj],
                    bd as int,
                    cd as int,
                    n1,
                    ws.next_id,
                );
            } else if jj == ssi as int {
                assert(stack_ids_below(mid_ws.stacks@[jj], mid_ws.next_id));
            } else {
                assert(ws.stacks@[jj] == old_ws.stacks@[jj]);
            }
        }
        assert(remap@ == rs + rd);
        assert forall|k: int| 0 <= k < remap@.len() implies (#[trigger] remap@[k]).1 == n0 + k
            && remap@[k].0 < remap@[k].1 by {
            if k < rs.len() {
                assert(remap@[k] == rs[k]);
            } else {
                assert(remap@[k] == rd[k - rs.len()]);
            }
        }
        assert(stack_after_content_rebuild(
            old_ws.stacks@[ssi as int],
            ws.stacks@[ssi as int],
            bs as int,
            cs as int,
            n0,
            unselected_commit_changes(src_changes, params.files@),
        ));
        assert(stack_after_content_rebuild(
            old_ws.stacks@[dsi as int],
            ws.stacks@[dsi as int],
            bd as int,
            cd as int,
            n0 + cnt_s,
            old_ws.stacks@[dsi as int].branches@[bd as int].commits@[cd as int].changes@
                + selected_commit_changes(src_changes, params.files@),
        ));
        assert(move_applied_two(
            old_ws,
            *ws,
            *params,
            remap@,
            ssi as int,
            bs as int,
            cs as int,
            dsi as int,
            bd as int,
            cd as int,
        ));
        assert(move_ok(old_ws, *ws, *params, remap@));
    }
    Ok(remap)
}

/// Move within a single stack; see `move_file_changes`.
#[verifier::spinoff_prover]
#[verifier::rlimit(100)]
fn move_within_stack(
    ws: &mut Workspace,
    params: &MoveFileChangesParameters,
    si: usize,
    bs: usize,
    cs: usize,
    bd: usize,
    cd: usize,
) -> (r: Result<Vec<(u64, u64)>, ToolError>)
    requires
        ws_wf(*old(ws)),
        si < old(ws).stacks@.len(),
        old(ws).stacks@[si as int].id == digits_value(params.source_stack_id@),
        old(ws).stacks@[si as int].id == digits_value(params.destination_stack_id@),
        bs < old(ws).stacks@[si as int].branches@.len(),
        cs < old(ws).stacks@[si as int].branches@[bs as int].commits@.len(),
        bd < old(ws).stacks@[si as int].branches@.len(),
        cd < old(ws).stacks@[si as int].branches@[bd as int].commits@.len(),
        old(ws).stacks@[si as int].branches@[bs as int].commits@[cs as int].id == digits_value(
            params.source_commit_id@,
        ),
        old(ws).stacks@[si as int].branches@[bd as int].commits@[cd as int].id == digits_value(
            params.destination_commit_id@,
        ),
    ensures
        ws_wf(*final(ws)),
        match r {
            Ok(remap) => move_ok(*old(ws), *final(ws), *params, remap@),
            Err(e) => {
                &&& e is Engine
                &&& final(ws).stacks == old(ws).stacks
                &&& final(ws).pending == old(ws).pending
                &&& final(ws).notifications == old(ws).notifications
                &&& final(ws).snapshots@.len() == old(ws).snapshots@.len() + 1
                &&& !final(ws).snapshots@.last().success
            },
        },
        !(bs == bd && cs == cd) && old(ws).next_id + stack_total_commits(
            old(ws).stacks@[si as int],
        ) + stack_total_commits(old(ws).stacks@[si as int]) + 1 <= u64::MAX ==> r is Ok,
{
    proof {
        lemma_commits_before_mono(old(ws).stacks@[si as int].branches@, 0, bs as int);
        lemma_commits_before_mono(old(ws).stacks@[si as int].branches@, 0, bd as int);
        lemma_affected_le_total(old(ws).stacks@[si as int], bs as int, cs as int);
        lemma_affected_le_total(old(ws).stacks@[si as int], bd as int, cd as int);
    }
    let ghost old_ws = *ws;
    let sid = ws.stacks[si].id;
    if bs == bd && cs == cd {
        ws.snapshots.push(SnapshotEntry { message: String::new(), success: false });
        return Err(
            ToolError::Engine("source and destination are the same commit".to_owned()),
        );
    }
    let lower_is_src = bs > bd || (bs == bd && cs > cd);
    let lb: usize = if lower_is_src {
        bs
    } else {
        bd
    };
    let lc: usize = if lower_is_src {
        cs
    } else {
        cd
    };
    let cnt = match affected_count_u64(&ws.stacks[si], lb, lc) {
        Some(v) => v,
        None => {
            ws.snapshots.push(SnapshotEntry { message: String::new(), success: false });
            return Err(ToolError::Engine("identifier space exhausted".to_owned()));
        },
    };
    if cnt == u64::MAX || ws.next_id > u64::MAX - cnt - 1 {
        ws.snapshots.push(SnapshotEntry { message: String::new(), success: false });
        return Err(ToolError::Engine("identifier space exhausted".to_owned()));
    }
    let ghost n0 = ws.next_id as int;
    let mut st = ws.stacks.remove(si);
    let ghost ob = st.branches@;
    let mut br = st.branches.remove(bs);
    let cm = br.commits.remove(cs);
    let CommitEntry { id: cmid, message: cmmsg, changes: cmch } = cm;
    let ghost src_changes = cmch@;
    let (mut sel, rest) = split_commit_changes(cmch, &params.files);
    br.commits.insert(cs, CommitEntry { id: cmid, message: cmmsg, changes: rest });
    st.branches.insert(bs, br);
    proof {
        assert(st.branches@[bs as int].commits@ =~= ob[bs as int].commits@.update(
            cs as int,
            st.branches@[bs as int].commits@[cs as int],
        ));
        assert(st.branches@ =~= ob.update(bs as int, st.branches@[bs as int]));
    }
    let ghost st_a = st;
    let mut dbr = st.branches.remove(bd);
    let mut dcm = dbr.commits.remove(cd);
    dcm.changes.append(&mut sel);
    dbr.commits.insert(cd, dcm);
    st.branches.insert(bd, dbr);
    proof {
        assert(st.branches@[bd as int].commits@ =~= st_a.branches@[bd as int].commits@.update(
            cd as int,
            st.branches@[bd as int].commits@[cd as int],
        ));
        assert(st.branches@ =~= st_a.branches@.update(bd as int, st.branches@[bd as int]));
        assert(forall|j: int|
            0 <= j < ob.len() ==> (#[trigger] st.branches@[j]).commits@.len()
                == ob[j].commits@.len());
        lemma_commits_before_congruence(st.branches@, ob, lb as int);
        assert(affected_count(st.branches@, lb as int, lc as int) == cnt);
        assert(stack_ids_below(st, ws.next_id));
    }
    let ghost smid = st;
    let (st2, remap) = rebuild_commits(st, &mut ws.next_id, lb, lc);
    ws.stacks.insert(si, st2);
    let wcid = match ws.fresh_id() {
        Ok(id) => id,
        Err(()) => {
            proof {
                assert(false);
            }
            return Err(ToolError::Engine("identifier space exhausted".to_owned()));
        },
    };
    ws.workspace_commit = wcid;
    ws.snapshots.push(SnapshotEntry { message: String::new(), success: true });
    ws.notifications.push(sid);
    ws.notifications.push(sid);
    proof {
        assert(ws.stacks@ =~= old_ws.stacks@.update(si as int, ws.stacks@[si as int]));
        assert(ws.snapshots@.subrange(0, old_ws.snapshots@.len() as int) =~= old_ws.snapshots@);
        assert forall|b: int, c: int|
            0 <= b < ob.len() && 0 <= c < ob[b].commits@.len() && is_affected(
                lb as int,
                lc as int,
                b,
                c,
            ) implies flat_index(smid.branches@, b, c) == flat_index(ob, b, c) by {
            lemma_commits_before_congruence(smid.branches@, ob, b);
        }
        assert forall|i: int| 0 <= i < ws.stacks@.len() implies branch_names_unique(
            #[trigger] ws.stacks@[i],
        ) by {
            assert(forall|j: int|
                0 <= j < ws.stacks@[i].branches@.len() ==> (#[trigger] ws.stacks@[i].branches@[j]).name
                    == old_ws.stacks@[i].branches@[j].name);
        }
        assert forall|jj: int| 0 <= jj < ws.stacks@.len() implies stack_ids_below(
            #[trigger] ws.stacks@[jj],
            ws.next_id,
        ) by {
            if jj == si as int {
                lemma_rebuilt_ids_below(
                    smid.branches@,
                    ws.stacks@[jj],
                    lb as int,
                    lc as int,
                    n0,
                    ws.next_id,
                );
            } else {
                assert(ws.stacks@[jj] == old_ws.stacks@[jj]);
            }
        }
        assert(move_applied_same(
            old_ws,
            *ws,
            *params,
            remap@,
            si as int,
            bs as int,
            cs as int,
            bd as int,
            cd as int,
        ));
        assert(move_ok(old_ws, *ws, *params, remap@));
    }
    Ok(remap)
}

} // verus!
