//! The read-only project view: stacks of branches of commits for display, and
//! the pending file changes with their hunk-to-stack assignments and
//! dependency locks.
//!
//! The whole view is a function of the workspace value alone, stated by the
//! spec functions here; two consecutive reads with no mutation in between are
//! therefore identical. Archived branches are excluded; branches without
//! commits are omitted from their stack, and stacks whose every branch ends up
//! empty are omitted entirely. A hunk's assignment is found by exact match on
//! its path and header, never by a partial match.

use vstd::prelude::*;
use crate::model::Workspace;
use crate::model::Stack;
use crate::model::Branch;
use crate::model::CommitEntry;
use crate::model::CommitChange;
use crate::model::WorktreeChange;
use crate::model::Hunk;
use crate::model::HunkHeader;
use crate::model::HunkAssignment;
use crate::model::HunkLock;
use crate::model::ChangeStatus;
use crate::message::title_of;
use crate::message::body_of;
use crate::message::split_message;
use crate::model::str_eq;
use crate::ops::dup_status;
use crate::envelope::ToolError;
use crate::params::GetCommitDetailsParameters;
use crate::params::GetProjectStatusParameters;
use crate::model::parse_id;
use crate::model::all_digits;
use crate::model::digits_value;

verus! {

/// A commit as displayed: identifier, message title and message body.
#[derive(Clone, Debug, PartialEq)]
pub struct SimpleCommit {
    pub id: u64,
    pub message_title: String,
    pub message_body: String,
}

/// A branch as displayed: name, description and its commits.
#[derive(Clone, Debug, PartialEq)]
pub struct SimpleBranch {
    pub name: String,
    pub description: Option<String>,
    pub commits: Vec<SimpleCommit>,
}

/// A stack as displayed: identifier, name and its displayable branches.
#[derive(Clone, Debug, PartialEq)]
pub struct SimpleStack {
    pub id: u64,
    pub name: String,
    pub branches: Vec<SimpleBranch>,
}

/// A diff hunk together with the stack it is assigned to, if any, and the
/// commits whose content it depends on.
#[derive(Clone, Debug, PartialEq)]
pub struct RichHunk {
    pub diff: String,
    pub assigned_to_stack: Option<u64>,
    pub dependency_locks: Vec<HunkLock>,
}

/// A pending file change as displayed: path, change status and hunks.
#[derive(Clone, Debug, PartialEq)]
pub struct FileChange {
    pub path: String,
    pub status: ChangeStatus,
    pub hunks: Vec<RichHunk>,
}

/// The status of a project: applied stacks and committable file changes.
#[derive(Clone, Debug, PartialEq)]
pub struct ProjectStatus {
    pub stacks: Vec<SimpleStack>,
    pub file_changes: Vec<FileChange>,
}

/// Mathematical value of a displayed commit.
#[verifier::ext_equal]
pub ghost struct SimpleCommitV {
    pub id: u64,
    pub title: Seq<char>,
    pub body: Seq<char>,
}

/// Mathematical value of a displayed branch.
#[verifier::ext_equal]
pub ghost struct SimpleBranchV {
    pub name: Seq<char>,
    pub description: Option<Seq<char>>,
    pub commits: Seq<SimpleCommitV>,
}

/// Mathematical value of a displayed stack.
#[verifier::ext_equal]
pub ghost struct SimpleStackV {
    pub id: u64,
    pub name: Seq<char>,
    pub branches: Seq<SimpleBranchV>,
}

/// Mathematical value of a displayed hunk.
#[verifier::ext_equal]
pub ghost struct RichHunkV {
    pub diff: Seq<char>,
    pub assigned_to_stack: Option<u64>,
    pub dependency_locks: Seq<HunkLock>,
}

/// Mathematical value of a change status.
#[verifier::ext_equal]
pub ghost enum ChangeStatusV {
    Added,
    Deleted,
    Modified,
    RenamedFrom(Seq<char>),
}

/// Mathematical value of a displayed file change.
#[verifier::ext_equal]
pub ghost struct FileChangeV {
    pub path: Seq<char>,
    pub status: ChangeStatusV,
    pub hunks: Seq<RichHunkV>,
}

/// Mathematical value of the whole project status.
#[verifier::ext_equal]
pub ghost struct ProjectStatusV {
    pub stacks: Seq<SimpleStackV>,
    pub file_changes: Seq<FileChangeV>,
}

impl View for SimpleCommit {
    type V = SimpleCommitV;

    open spec fn view(&self) -> SimpleCommitV {
        SimpleCommitV { id: self.id, title: self.message_title@, body: self.message_body@ }
    }
}

impl View for SimpleBranch {
    type V = SimpleBranchV;

    open spec fn view(&self) -> SimpleBranchV {
        SimpleBranchV {
            name: self.name@,
            description: match self.description {
                Some(d) => Some(d@),
                None => None,
            },
            commits: self.commits@.map_values(|c: SimpleCommit| c@),
        }
    }
}

impl View for SimpleStack {
    type V = SimpleStackV;

    open spec fn view(&self) -> SimpleStackV {
        SimpleStackV {
            id: self.id,
            name: self.name@,
            branches: self.branches@.map_values(|b: SimpleBranch| b@),
        }
    }
}

impl View for RichHunk {
    type V = RichHunkV;

    open spec fn view(&self) -> RichHunkV {
        RichHunkV {
            diff: self.diff@,
            assigned_to_stack: self.assigned_to_stack,
            dependency_locks: self.dependency_locks@,
        }
    }
}

/// Mathematical value of a change status.
pub open spec fn status_view(s: ChangeStatus) -> ChangeStatusV {
    match s {
        ChangeStatus::Added => ChangeStatusV::Added,
        ChangeStatus::Deleted => ChangeStatusV::Deleted,
        ChangeStatus::Modified => ChangeStatusV::Modified,
        ChangeStatus::RenamedFrom(p) => ChangeStatusV::RenamedFrom(p@),
    }
}

impl View for FileChange {
    type V = FileChangeV;

    open spec fn view(&self) -> FileChangeV {
        FileChangeV {
            path: self.path@,
            status: status_view(self.status),
            hunks: self.hunks@.map_values(|h: RichHunk| h@),
        }
    }
}

impl View for ProjectStatus {
    type V = ProjectStatusV;

    open spec fn view(&self) -> ProjectStatusV {
        ProjectStatusV {
            stacks: self.stacks@.map_values(|s: SimpleStack| s@),
            file_changes: self.file_changes@.map_values(|c: FileChange| c@),
        }
    }
}

/// The displayed value of a stored commit: title and body split out of the
/// full message.
pub open spec fn commit_view(c: CommitEntry) -> SimpleCommitV {
    SimpleCommitV { id: c.id, title: title_of(c.message@), body: body_of(c.message@) }
}

/// The displayable branches of a stack: not archived and holding at least one
/// commit, in order, each with its commits split into title and body.
pub open spec fn visible_branches(bs: Seq<Branch>) -> Seq<SimpleBranchV>
    decreases bs.len(),
{
    if bs.len() == 0 {
        Seq::empty()
    } else {
        let rest = visible_branches(bs.drop_last());
        let b = bs.last();
        if !b.archived && b.commits@.len() > 0 {
            rest.push(
                SimpleBranchV {
                    name: b.name@,
                    description: match b.description {
                        Some(d) => Some(d@),
                        None => None,
                    },
                    commits: b.commits@.map_values(|c: CommitEntry| commit_view(c)),
                },
            )
        } else {
            rest
        }
    }
}

/// The displayed stacks: those with at least one displayable branch, in
/// order.
pub open spec fn stacks_view(stacks: Seq<Stack>) -> Seq<SimpleStackV>
    decreases stacks.len(),
{
    if stacks.len() == 0 {
        Seq::empty()
    } else {
        let rest = stacks_view(stacks.drop_last());
        let s = stacks.last();
        if visible_branches(s.branches@).len() > 0 {
            rest.push(
                SimpleStackV { id: s.id, name: s.name@, branches: visible_branches(s.branches@) },
            )
        } else {
            rest
        }
    }
}

/// The first assignment table row matching the path and header exactly, as
/// the pair of its stack and its locks.
pub open spec fn assignment_for(
    assignments: Seq<HunkAssignment>,
    path: Seq<char>,
    header: HunkHeader,
) -> Option<(Option<u64>, Seq<HunkLock>)>
    decreases assignments.len(),
{
    if assignments.len() == 0 {
        None
    } else {
        let a = assignments.first();
        if a.path@ == path && a.header == Some(header) {
            Some((a.stack_id, a.locks@))
        } else {
            assignment_for(assignments.drop_first(), path, header)
        }
    }
}

/// The displayed value of one hunk on a path: its diff plus the outcome of
/// the exact assignment lookup, or no stack and no locks when unmatched.
pub open spec fn hunk_view(
    h: Hunk,
    assignments: Seq<HunkAssignment>,
    path: Seq<char>,
) -> RichHunkV {
    match assignment_for(assignments, path, h.header) {
        Some((sid, locks)) => RichHunkV {
            diff: h.diff@,
            assigned_to_stack: sid,
            dependency_locks: locks,
        },
        None => RichHunkV {
            diff: h.diff@,
            assigned_to_stack: None,
            dependency_locks: Seq::empty(),
        },
    }
}

/// The displayed file changes: one entry per pending change that has a
/// renderable patch, with each hunk looked up in the assignment table.
pub open spec fn file_changes_view(
    changes: Seq<WorktreeChange>,
    assignments: Seq<HunkAssignment>,
) -> Seq<FileChangeV>
    decreases changes.len(),
{
    if changes.len() == 0 {
        Seq::empty()
    } else {
        let rest = file_changes_view(changes.drop_last(), assignments);
        let c = changes.last();
        if c.has_patch {
            rest.push(
                FileChangeV {
                    path: c.path@,
                    status: status_view(c.status),
                    hunks: c.hunks@.map_values(|h: Hunk| hunk_view(h, assignments, c.path@)),
                },
            )
        } else {
            rest
        }
    }
}

/// Whether `path` occurs in the filter list.
pub open spec fn filter_has(filter: Seq<Seq<char>>, path: Seq<char>) -> bool {
    exists|i: int| 0 <= i < filter.len() && filter[i] == path
}

/// The pending changes the caller asked about: all of them without a filter,
/// else those whose path is listed; unmatched filter entries are dropped.
pub open spec fn filtered_pending(
    pending: Seq<WorktreeChange>,
    filter: Option<Seq<Seq<char>>>,
) -> Seq<WorktreeChange>
    decreases pending.len(),
{
    match filter {
        None => pending,
        Some(f) => {
            if pending.len() == 0 {
                Seq::empty()
            } else {
                let rest = filtered_pending(pending.drop_last(), filter);
                if filter_has(f, pending.last().path@) {
                    rest.push(pending.last())
                } else {
                    rest
                }
            }
        },
    }
}

/// The filter as a mathematical value.
pub open spec fn filter_view(filter: Option<Vec<String>>) -> Option<Seq<Seq<char>>> {
    match filter {
        None => None,
        Some(f) => Some(f@.map_values(|s: String| s@)),
    }
}

/// The whole project status as a function of the workspace and the filter.
pub open spec fn project_status_view(w: Workspace, filter: Option<Seq<Seq<char>>>) -> ProjectStatusV {
    ProjectStatusV {
        stacks: stacks_view(w.stacks@),
        file_changes: file_changes_view(filtered_pending(w.pending@, filter), w.assignments@),
    }
}

impl SimpleCommit {
    /// Display form of a stored commit: the message split into title and
    /// body.
    pub fn from_commit(c: &CommitEntry) -> (r: SimpleCommit)
        ensures
            r@ == commit_view(*c),
    {
        let (message_title, message_body) = split_message(c.message.as_str());
        SimpleCommit { id: c.id, message_title, message_body }
    }
}

/// Copy of a lock list, equal to the original.
fn dup_locks(v: &Vec<HunkLock>) -> (r: Vec<HunkLock>)
    ensures
        r@ == v@,
{
    let mut r: Vec<HunkLock> = Vec::new();
    let mut i: usize = 0;
    while i < v.len()
        invariant
            0 <= i <= v@.len(),
            r@ =~= v@.subrange(0, i as int),
        decreases v@.len() - i,
    {
        r.push(v[i]);
        i = i + 1;
    }
    proof {
        assert(r@ =~= v@);
    }
    r
}

/// Exact lookup in the assignment table: the first row whose path and header
/// both match, and nothing on any partial match.
fn lookup_assignment(assignments: &Vec<HunkAssignment>, path: &str, header: HunkHeader) -> (r:
    Option<(Option<u64>, Vec<HunkLock>)>)
    ensures
        match r {
            Some(p) => assignment_for(assignments@, path@, header) == Some((p.0, p.1@)),
            None => assignment_for(assignments@, path@, header) is None,
        },
{
    let mut i: usize = 0;
    proof {
        assert(assignments@.subrange(0, assignments@.len() as int) =~= assignments@);
    }
    while i < assignments.len()
        invariant
            0 <= i <= assignments@.len(),
            assignment_for(assignments@, path@, header) == assignment_for(
                assignments@.subrange(i as int, assignments@.len() as int),
                path@,
                header,
            ),
        decreases assignments@.len() - i,
    {
        let a = &assignments[i];
        proof {
            let cur = assignments@.subrange(i as int, assignments@.len() as int);
            assert(cur.first() == assignments@[i as int]);
            assert(cur.drop_first() =~= assignments@.subrange(i + 1, assignments@.len() as int));
        }
        let header_matches = match &a.header {
            Some(h) => *h == header,
            None => false,
        };
        if header_matches && str_eq(a.path.as_str(), path) {
            return Some((a.stack_id, dup_locks(&a.locks)));
        }
        i = i + 1;
    }
    proof {
        assert(assignments@.subrange(
            assignments@.len() as int,
            assignments@.len() as int,
        ) =~= Seq::<HunkAssignment>::empty());
    }
    None
}

/// Display form of one pending change's hunks.
fn build_hunks(c: &WorktreeChange, assignments: &Vec<HunkAssignment>) -> (r: Vec<RichHunk>)
    ensures
        r@.map_values(|h: RichHunk| h@) == c.hunks@.map_values(
            |h: Hunk| hunk_view(h, assignments@, c.path@),
        ),
{
    let mut r: Vec<RichHunk> = Vec::new();
    let mut i: usize = 0;
    while i < c.hunks.len()
        invariant
            0 <= i <= c.hunks@.len(),
            r@.len() == i,
            forall|k: int|
                0 <= k < i ==> (#[trigger] r@[k])@ == hunk_view(c.hunks@[k], assignments@, c.path@),
        decreases c.hunks@.len() - i,
    {
        let h = &c.hunks[i];
        let rh = match lookup_assignment(assignments, c.path.as_str(), h.header) {
            Some((sid, locks)) => RichHunk {
                diff: h.diff.clone(),
                assigned_to_stack: sid,
                dependency_locks: locks,
            },
            None => RichHunk {
                diff: h.diff.clone(),
                assigned_to_stack: None,
                dependency_locks: Vec::new(),
            },
        };
        proof {
            assert(rh@ =~= hunk_view(c.hunks@[i as int], assignments@, c.path@));
        }
        r.push(rh);
        i = i + 1;
    }
    proof {
        assert(r@.map_values(|h: RichHunk| h@) =~= c.hunks@.map_values(
            |h: Hunk| hunk_view(h, assignments@, c.path@),
        ));
    }
    r
}

/// Whether the filter list holds this path.
fn filter_matches(f: &Vec<String>, p: &str) -> (r: bool)
    ensures
        r == filter_has(f@.map_values(|s: String| s@), p@),
{
    let ghost fv = f@.map_values(|s: String| s@);
    let mut j: usize = 0;
    while j < f.len()
        invariant
            0 <= j <= f@.len(),
            fv == f@.map_values(|s: String| s@),
            forall|k: int| 0 <= k < j ==> fv[k] != p@,
        decreases f@.len() - j,
    {
        if str_eq(f[j].as_str(), p) {
            proof {
                assert(fv[j as int] == p@);
            }
            return true;
        }
        j = j + 1;
    }
    false
}

/// Display form of the stacks: archived branches excluded, empty branches
/// omitted, stacks without displayable branches omitted.
fn entries_to_simple_stacks(stacks: &Vec<Stack>) -> (r: Vec<SimpleStack>)
    ensures
        r@.map_values(|s: SimpleStack| s@) == stacks_view(stacks@),
{
    let mut r: Vec<SimpleStack> = Vec::new();
    let mut i: usize = 0;
    while i < stacks.len()
        invariant
            0 <= i <= stacks@.len(),
            r@.map_values(|s: SimpleStack| s@) == stacks_view(stacks@.subrange(0, i as int)),
        decreases stacks@.len() - i,
    {
        let s = &stacks[i];
        proof {
            assert(stacks@.subrange(0, i + 1).drop_last() =~= stacks@.subrange(0, i as int));
            assert(stacks@.subrange(0, i + 1).last() == stacks@[i as int]);
        }
        let mut simple_branches: Vec<SimpleBranch> = Vec::new();
        let mut j: usize = 0;
        while j < s.branches.len()
            invariant
                0 <= j <= s.branches@.len(),
                i < stacks@.len(),
                *s == stacks@[i as int],
                simple_branches@.map_values(|b: SimpleBranch| b@) == visible_branches(
                    s.branches@.subrange(0, j as int),
                ),
            decreases s.branches@.len() - j,
        {
            let b = &s.branches[j];
            proof {
                assert(s.branches@.subrange(0, j + 1).drop_last() =~= s.branches@.subrange(
                    0,
                    j as int,
                ));
                assert(s.branches@.subrange(0, j + 1).last() == s.branches@[j as int]);
            }
            if !b.archived && b.commits.len() > 0 {
                let mut commits: Vec<SimpleCommit> = Vec::new();
                let mut k: usize = 0;
                while k < b.commits.len()
                    invariant
                        0 <= k <= b.commits@.len(),
                        j < s.branches@.len(),
                        *b == s.branches@[j as int],
                        commits@.len() == k,
                        forall|m: int|
                            0 <= m < k ==> (#[trigger] commits@[m])@ == commit_view(
                                b.commits@[m],
                            ),
                    decreases b.commits@.len() - k,
                {
                    commits.push(SimpleCommit::from_commit(&b.commits[k]));
                    k = k + 1;
                }
                let description = match &b.description {
                    Some(d) => Some(d.clone()),
                    None => None,
                };
                let sb = SimpleBranch { name: b.name.clone(), description, commits };
                let ghost prev = simple_branches@.map_values(|x: SimpleBranch| x@);
                proof {
                    assert(sb@.commits =~= b.commits@.map_values(
                        |c: CommitEntry| commit_view(c),
                    ));
                    assert(sb@ =~= SimpleBranchV {
                        name: b.name@,
                        description: match b.description {
                            Some(d) => Some(d@),
                            None => None,
                        },
                        commits: b.commits@.map_values(|c: CommitEntry| commit_view(c)),
                    });
                }
                simple_branches.push(sb);
                proof {
                    assert(simple_branches@.map_values(|x: SimpleBranch| x@) =~= prev.push(
                        simple_branches@.last()@,
                    ));
                }
            }
            j = j + 1;
        }
        proof {
            assert(s.branches@.subrange(0, s.branches@.len() as int) =~= s.branches@);
        }
        if simple_branches.len() > 0 {
            let st = SimpleStack { id: s.id, name: s.name.clone(), branches: simple_branches };
            let ghost prev = r@.map_values(|x: SimpleStack| x@);
            r.push(st);
            proof {
                assert(r@.map_values(|x: SimpleStack| x@) =~= prev.push(r@.last()@));
                assert(r@.last()@ =~= SimpleStackV {
                    id: s.id,
                    name: s.name@,
                    branches: visible_branches(s.branches@),
                });
            }
        }
        i = i + 1;
    }
    proof {
        assert(stacks@.subrange(0, stacks@.len() as int) =~= stacks@);
    }
    r
}

/// The filtered pending file changes with their assignments; the second half
/// of the project status.
pub fn get_filtered_changes(ws: &Workspace, filter_changes: &Option<Vec<String>>) -> (r: Vec<
    FileChange,
>)
    ensures
        r@.map_values(|c: FileChange| c@) == file_changes_view(
            filtered_pending(ws.pending@, filter_view(*filter_changes)),
            ws.assignments@,
        ),
{
    let ghost fview = filter_view(*filter_changes);
    let pending = &ws.pending;
    let assignments = &ws.assignments;
    let mut r: Vec<FileChange> = Vec::new();
    let mut i: usize = 0;
    while i < pending.len()
        invariant
            0 <= i <= pending@.len(),
            pending@ == ws.pending@,
            assignments@ == ws.assignments@,
            fview == filter_view(*filter_changes),
            r@.map_values(|c: FileChange| c@) == file_changes_view(
                filtered_pending(pending@.subrange(0, i as int), fview),
                assignments@,
            ),
        decreases pending@.len() - i,
    {
        let c = &pending[i];
        proof {
            assert(pending@.subrange(0, i + 1).drop_last() =~= pending@.subrange(0, i as int));
            assert(pending@.subrange(0, i + 1).last() == pending@[i as int]);
        }
        let keep = match filter_changes {
            None => true,
            Some(f) => filter_matches(f, c.path.as_str()),
        };
        proof {
            let fp_i = filtered_pending(pending@.subrange(0, i as int), fview);
            let fp_i1 = filtered_pending(pending@.subrange(0, i + 1), fview);
            match fview {
                None => {
                    assert(fp_i1 =~= fp_i.push(pending@[i as int]));
                },
                Some(f) => {
                    if keep {
                        assert(fp_i1 == fp_i.push(pending@[i as int]));
                    } else {
                        assert(fp_i1 == fp_i);
                    }
                },
            }
            if keep {
                assert(fp_i.push(pending@[i as int]).drop_last() =~= fp_i);
                assert(fp_i.push(pending@[i as int]).last() == pending@[i as int]);
            }
        }
        if keep && c.has_patch {
            let hunks = build_hunks(c, assignments);
            let fc = FileChange {
                path: c.path.clone(),
                status: dup_status(&c.status),
                hunks,
            };
            let ghost prev = r@.map_values(|c: FileChange| c@);
            r.push(fc);
            proof {
                assert(r@.map_values(|c: FileChange| c@) =~= prev.push(fc@));
                assert(fc@ =~= (FileChangeV {
                    path: c.path@,
                    status: status_view(c.status),
                    hunks: c.hunks@.map_values(
                        |h: Hunk| hunk_view(h, assignments@, c.path@),
                    ),
                }));
            }
        }
        i = i + 1;
    }
    proof {
        assert(pending@.subrange(0, pending@.len() as int) =~= pending@);
    }
    r
}

/// The whole project status: displayed stacks plus filtered file changes.
/// The result is a function of the workspace and the filter alone, so two
/// consecutive reads with no intervening mutation agree.
pub fn get_project_status(ws: &Workspace, params: &GetProjectStatusParameters) -> (r: ProjectStatus)
    ensures
        r@ == project_status_view(*ws, filter_view(params.filter_changes)),
{
    let stacks = entries_to_simple_stacks(&ws.stacks);
    let file_changes = get_filtered_changes(ws, &params.filter_changes);
    let r = ProjectStatus { stacks, file_changes };
    proof {
        assert(r@ =~= project_status_view(*ws, filter_view(params.filter_changes)));
    }
    r
}

/// Display form of a single commit's recorded changes: the same shape as the
/// pending-change view, with no assignment lookup, since assignments apply
/// only to uncommitted hunks.
pub open spec fn commit_changes_view(changes: Seq<CommitChange>) -> Seq<FileChangeV> {
    changes.map_values(
        |c: CommitChange|
            FileChangeV {
                path: c.path@,
                status: status_view(c.status),
                hunks: c.hunks@.map_values(
                    |h: Hunk|
                        RichHunkV {
                            diff: h.diff@,
                            assigned_to_stack: None,
                            dependency_locks: Seq::empty(),
                        },
                ),
            },
    )
}

/// Everything the commit-details read guarantees: it fails exactly when the
/// identifier does not parse or no commit carries it, and on success it
/// reports exactly the commit's recorded changes, with no assignment lookup.
pub open spec fn commit_details_post(
    w: Workspace,
    params: GetCommitDetailsParameters,
    r: Result<Vec<FileChange>, ToolError>,
) -> bool {
    &&& (match r {
            Ok(out) => exists|si: int, bi: int, ci: int|
                {
                    &&& 0 <= si < w.stacks@.len()
                    &&& 0 <= bi < w.stacks@[si].branches@.len()
                    &&& 0 <= ci < w.stacks@[si].branches@[bi].commits@.len()
                    &&& (#[trigger] w.stacks@[si].branches@[bi].commits@[ci]).id == digits_value(
                        params.commit_id@,
                    )
                    &&& out@.map_values(|c: FileChange| c@) == commit_changes_view(
                        w.stacks@[si].branches@[bi].commits@[ci].changes@,
                    )
                },
            Err(e) => e is Reference,
        })
    &&& (r is Err <==> !(all_digits(params.commit_id@) && digits_value(params.commit_id@)
            <= u64::MAX && (exists|si: int|
            0 <= si < w.stacks@.len() && crate::ops::stack_has_commit(
                #[trigger] w.stacks@[si],
                digits_value(params.commit_id@) as u64,
            ))))
}

/// The file changes of the commit with the given identifier, wherever it
/// stands in the workspace. Fails exactly when the identifier does not parse
/// or no commit carries it.
pub fn commit_details(ws: &Workspace, params: &GetCommitDetailsParameters) -> (r: Result<
    Vec<FileChange>,
    ToolError,
>)
    ensures
        commit_details_post(*ws, *params, r),

{
    let cid = match parse_id(params.commit_id.as_str()) {
        Some(v) => v,
        None => {
            return Err(ToolError::Reference("commit id does not parse".to_owned()));
        },
    };
    let mut si: usize = 0;
    while si < ws.stacks.len()
        invariant
            0 <= si <= ws.stacks@.len(),
            all_digits(params.commit_id@),
            cid == digits_value(params.commit_id@),
            forall|k: int| 0 <= k < si ==> !crate::ops::stack_has_commit(ws.stacks@[k], cid),
        decreases ws.stacks@.len() - si,
    {
        match crate::ops::find_commit_in_stack(&ws.stacks[si], cid) {
            Some((bi, ci)) => {
                let cm = &ws.stacks[si].branches[bi].commits[ci];
                let mut out: Vec<FileChange> = Vec::new();
                let mut k: usize = 0;
                while k < cm.changes.len()
                    invariant
                        0 <= k <= cm.changes@.len(),
                        out@.len() == k,
                        forall|m: int|
                            0 <= m < k ==> (#[trigger] out@[m])@ == commit_changes_view(
                                cm.changes@,
                            )[m],
                    decreases cm.changes@.len() - k,
                {
                    let c = &cm.changes[k];
                    let mut hunks: Vec<RichHunk> = Vec::new();
                    let mut m: usize = 0;
                    while m < c.hunks.len()
                        invariant
                            0 <= m <= c.hunks@.len(),
                            k < cm.changes@.len(),
                            *c == cm.changes@[k as int],
                            hunks@.len() == m,
                            forall|q: int|
                                0 <= q < m ==> (#[trigger] hunks@[q])@ == (RichHunkV {
                                    diff: c.hunks@[q].diff@,
                                    assigned_to_stack: None,
                                    dependency_locks: Seq::empty(),
                                }),
                        decreases c.hunks@.len() - m,
                    {
                        hunks.push(
                            RichHunk {
                                diff: c.hunks[m].diff.clone(),
                                assigned_to_stack: None,
                                dependency_locks: Vec::new(),
                            },
                        );
                        m = m + 1;
                    }
                    let fc = FileChange {
                        path: c.path.clone(),
                        status: dup_status(&c.status),
                        hunks,
                    };
                    proof {
                        assert(fc@ =~= commit_changes_view(cm.changes@)[k as int]);
                    }
                    out.push(fc);
                    k = k + 1;
                }
                proof {
                    assert(out@.map_values(|c: FileChange| c@) =~= commit_changes_view(
                        cm.changes@,
                    ));
                    assert(*cm == ws.stacks@[si as int].branches@[bi as int].commits@[ci as int]);
                    assert(ws.stacks@[si as int].branches@[bi as int].commits@[ci as int].id
                        == cid);
                    assert(digits_value(params.commit_id@) as u64 == cid);
                    assert(crate::ops::branch_has_commit(
                        ws.stacks@[si as int].branches@[bi as int],
                        cid,
                    ));
                    assert(crate::ops::stack_has_commit(ws.stacks@[si as int], cid));
                    assert(out@.map_values(|c: FileChange| c@) == commit_changes_view(
                        ws.stacks@[si as int].branches@[bi as int].commits@[ci as int].changes@,
                    ));
                }
                return Ok(out);
            },
            None => {
                si = si + 1;
            },
        }
    }
    Err(ToolError::Reference("no commit with this id in the workspace".to_owned()))
}

/// Two project status reads of the same workspace with the same filter are
/// identical: the view is a function of the workspace value alone.
pub proof fn lemma_status_idempotent(
    w: Workspace,
    filter: Option<Seq<Seq<char>>>,
    r1: ProjectStatusV,
    r2: ProjectStatusV,
)
    requires
        r1 == project_status_view(w, filter),
        r2 == project_status_view(w, filter),
    ensures
        r1 == r2,
{
}

/// The assignment lookup is exact: whatever it returns comes from a table row
/// whose path and header both equal the hunk's, never from a partial match.
pub proof fn lemma_assignment_lookup_exact(
    assignments: Seq<HunkAssignment>,
    path: Seq<char>,
    header: HunkHeader,
)
    ensures
        match assignment_for(assignments, path, header) {
            Some(p) => exists|i: int|
                {
                    &&& 0 <= i < assignments.len()
                    &&& (#[trigger] assignments[i]).path@ == path
                    &&& assignments[i].header == Some(header)
                    &&& p == (assignments[i].stack_id, assignments[i].locks@)
                },
            None => forall|i: int|
                0 <= i < assignments.len() ==> !((#[trigger] assignments[i]).path@ == path
                    && assignments[i].header == Some(header)),
        },
    decreases assignments.len(),
{
    if assignments.len() > 0 {
        let a = assignments.first();
        if a.path@ == path && a.header == Some(header) {
            assert(assignments[0] == a);
        } else {
            lemma_assignment_lookup_exact(assignments.drop_first(), path, header);
            match assignment_for(assignments, path, header) {
                Some(p) => {
                    let rest = assignments.drop_first();
                    let i = choose|i: int|
                        0 <= i < rest.len() && (#[trigger] rest[i]).path@ == path
                            && rest[i].header == Some(header) && p == (
                        rest[i].stack_id,
                        rest[i].locks@,
                        );
                    assert(assignments[i + 1] == rest[i]);
                },
                None => {
                    assert(forall|i: int|
                        1 <= i < assignments.len() ==> assignments[i]
                            == assignments.drop_first()[i - 1]);
                },
            }
        }
    }
}

} // verus!
