//! The workspace model: stacks of branches of commits, the pending worktree
//! changes with their hunks, the hunk-to-stack assignment table, the snapshot
//! log and the queue of pending stack notifications.
//!
//! Commit and stack identifiers are plain numbers handed out by the
//! workspace's counter; every identifier in the workspace is strictly below
//! `next_id`, so a freshly allocated identifier is distinct from every
//! existing one. Operations that rebuild commits allocate new identifiers and
//! never reuse an old one.

use vstd::prelude::*;

verus! {

/// Position of a diff hunk: old start, old line count, new start, new line
/// count.
#[derive(Clone, Copy, PartialEq, Eq, Structural, Debug)]
pub struct HunkHeader {
    pub old_start: u32,
    pub old_lines: u32,
    pub new_start: u32,
    pub new_lines: u32,
}

/// A contiguous diff region within a file change.
#[derive(Clone, Debug, PartialEq)]
#[verifier::ext_equal]
pub struct Hunk {
    pub header: HunkHeader,
    pub diff: String,
}

/// A reference from a hunk to a commit whose content it depends on.
#[derive(Clone, Copy, PartialEq, Eq, Structural, Debug)]
pub struct HunkLock {
    pub commit_id: u64,
}

/// One row of the global assignment table: which stack, if any, a hunk with
/// this exact path and header belongs to, and which commits lock it.
#[derive(Clone, Debug, PartialEq)]
#[verifier::ext_equal]
pub struct HunkAssignment {
    pub path: String,
    pub header: Option<HunkHeader>,
    pub stack_id: Option<u64>,
    pub locks: Vec<HunkLock>,
}

/// How a file changed relative to the base tree.
#[derive(Clone, Debug, PartialEq)]
#[verifier::ext_equal]
pub enum ChangeStatus {
    Added,
    Deleted,
    Modified,
    RenamedFrom(String),
}

/// A pending change in the worktree. `has_patch` is false for structural
/// changes without renderable hunks (such as submodule changes), which the
/// status view skips.
#[derive(Clone, Debug, PartialEq)]
#[verifier::ext_equal]
pub struct WorktreeChange {
    pub path: String,
    pub status: ChangeStatus,
    pub hunks: Vec<Hunk>,
    pub has_patch: bool,
}

/// A file-level change recorded in a commit's content.
#[derive(Clone, Debug, PartialEq)]
#[verifier::ext_equal]
pub struct CommitChange {
    pub path: String,
    pub status: ChangeStatus,
    pub hunks: Vec<Hunk>,
}

/// A commit: identifier, full message, and the file changes it carries.
#[derive(Clone, Debug, PartialEq)]
#[verifier::ext_equal]
pub struct CommitEntry {
    pub id: u64,
    pub message: String,
    pub changes: Vec<CommitChange>,
}

/// A named, ordered sequence of commits within a stack; index 0 is the tip.
#[derive(Clone, Debug, PartialEq)]
#[verifier::ext_equal]
pub struct Branch {
    pub name: String,
    pub description: Option<String>,
    pub commits: Vec<CommitEntry>,
    pub archived: bool,
}

/// An ordered group of branches sharing workspace placement; index 0 is the
/// branch nearest the tip.
#[derive(Clone, Debug, PartialEq)]
#[verifier::ext_equal]
pub struct Stack {
    pub id: u64,
    pub name: String,
    pub branches: Vec<Branch>,
}

/// One entry of the snapshot log: the message the snapshot was taken for and
/// whether the guarded operation succeeded.
#[derive(Clone, Debug, PartialEq)]
#[verifier::ext_equal]
pub struct SnapshotEntry {
    pub message: String,
    pub success: bool,
}

/// The whole workspace: stacks, pending changes, the assignment table, the
/// snapshot log, queued stack notifications and the identifier counter.
#[derive(Clone, Debug, PartialEq)]
#[verifier::ext_equal]
pub struct Workspace {
    pub stacks: Vec<Stack>,
    pub pending: Vec<WorktreeChange>,
    pub assignments: Vec<HunkAssignment>,
    pub snapshots: Vec<SnapshotEntry>,
    pub notifications: Vec<u64>,
    pub workspace_commit: u64,
    pub next_id: u64,
}

/// Every commit identifier in the branch is strictly below `n`.
pub open spec fn branch_ids_below(b: Branch, n: u64) -> bool {
    forall|i: int| 0 <= i < b.commits@.len() ==> b.commits@[i].id < n
}

/// Every commit identifier in the stack is strictly below `n`.
pub open spec fn stack_ids_below(s: Stack, n: u64) -> bool {
    forall|i: int| 0 <= i < s.branches@.len() ==> branch_ids_below(#[trigger] s.branches@[i], n)
}

/// Branch names are unique within the stack.
pub open spec fn branch_names_unique(s: Stack) -> bool {
    forall|i: int, j: int|
        0 <= i < j < s.branches@.len() ==> s.branches@[i].name@ != s.branches@[j].name@
}

/// Well-formedness of the workspace: every stack and commit identifier, and
/// the aggregate workspace commit, is strictly below the counter; stack
/// identifiers are unique; and branch names are unique within each stack.
pub open spec fn ws_wf(w: Workspace) -> bool {
    &&& forall|i: int|
        0 <= i < w.stacks@.len() ==> (#[trigger] w.stacks@[i]).id < w.next_id
    &&& forall|i: int|
        0 <= i < w.stacks@.len() ==> stack_ids_below(#[trigger] w.stacks@[i], w.next_id)
    &&& forall|i: int, j: int|
        0 <= i < j < w.stacks@.len() ==> (#[trigger] w.stacks@[i]).id != (
        #[trigger] w.stacks@[j]).id
    &&& forall|i: int| 0 <= i < w.stacks@.len() ==> branch_names_unique(#[trigger] w.stacks@[i])
    &&& w.workspace_commit < w.next_id
}

impl Workspace {
    /// An empty workspace whose counter starts at 1; identifier 0 stands for
    /// the initial aggregate workspace commit.
    pub fn new() -> (w: Workspace)
        ensures
            ws_wf(w),
            w.stacks@.len() == 0,
            w.pending@.len() == 0,
            w.assignments@.len() == 0,
            w.snapshots@.len() == 0,
            w.notifications@.len() == 0,
            w.workspace_commit == 0,
            w.next_id == 1,
    {
        Workspace {
            stacks: Vec::new(),
            pending: Vec::new(),
            assignments: Vec::new(),
            snapshots: Vec::new(),
            notifications: Vec::new(),
            workspace_commit: 0,
            next_id: 1,
        }
    }

    /// Allocate a fresh identifier, distinct from every identifier already in
    /// the workspace.
    pub fn fresh_id(&mut self) -> (r: Result<u64, ()>)
        ensures
            match r {
                Ok(id) => {
                    &&& id == old(self).next_id
                    &&& final(self).next_id == old(self).next_id + 1
                    &&& final(self).stacks == old(self).stacks
                    &&& final(self).pending == old(self).pending
                    &&& final(self).assignments == old(self).assignments
                    &&& final(self).snapshots == old(self).snapshots
                    &&& final(self).notifications == old(self).notifications
                    &&& final(self).workspace_commit == old(self).workspace_commit
                },
                Err(()) => *final(self) == *old(self) && old(self).next_id == u64::MAX,
            },
    {
        if self.next_id == u64::MAX {
            return Err(());
        }
        let id = self.next_id;
        self.next_id = self.next_id + 1;
        Ok(id)
    }
}

/// Numeric value of a sequence of decimal digits.
pub open spec fn digits_value(s: Seq<char>) -> int
    decreases s.len(),
{
    if s.len() == 0 {
        0
    } else {
        digits_value(s.drop_last()) * 10 + (s.last() as int - '0' as int)
    }
}

/// Whether every character of `s` is a decimal digit and `s` is non-empty.
pub open spec fn all_digits(s: Seq<char>) -> bool {
    s.len() > 0 && forall|i: int| 0 <= i < s.len() ==> '0' <= #[trigger] s[i] <= '9'
}

/// Parse a decimal identifier. Returns the value exactly when the string is a
/// non-empty run of digits whose value fits in 64 bits.
pub fn parse_id(s: &str) -> (r: Option<u64>)
    ensures
        match r {
            Some(v) => all_digits(s@) && v == digits_value(s@),
            None => !(all_digits(s@) && digits_value(s@) <= u64::MAX),
        },
{
    let n = s.unicode_len();
    if n == 0 {
        return None;
    }
    let mut acc: u64 = 0;
    let mut i: usize = 0;
    while i < n
        invariant
            0 <= i <= n,
            n == s@.len(),
            forall|k: int| 0 <= k < i ==> '0' <= #[trigger] s@[k] <= '9',
            acc == digits_value(s@.subrange(0, i as int)),
        decreases n - i,
    {
        let c = s.get_char(i);
        if !('0' <= c && c <= '9') {
            return None;
        }
        let d: u64 = (c as u32 as u64) - ('0' as u32 as u64);
        proof {
            assert(s@.subrange(0, i + 1).drop_last() =~= s@.subrange(0, i as int));
            assert(s@.subrange(0, i + 1).last() == s@[i as int]);
        }
        if acc > (u64::MAX - d) / 10 {
            proof {
                assert(digits_value(s@.subrange(0, i + 1)) == acc * 10 + d);
                assert(acc * 10 + d > u64::MAX);
                lemma_digits_value_monotone(s@, i + 1);
            }
            return None;
        }
        acc = acc * 10 + d;
        i = i + 1;
    }
    proof {
        assert(s@.subrange(0, n as int) =~= s@);
    }
    Some(acc)
}

/// If a digit prefix already exceeds `u64::MAX`, so does the whole string.
proof fn lemma_digits_value_monotone(s: Seq<char>, i: int)
    requires
        0 <= i <= s.len(),
        digits_value(s.subrange(0, i)) > u64::MAX,
    ensures
        all_digits(s) ==> digits_value(s) > u64::MAX,
    decreases s.len() - i,
{
    if i == s.len() {
        assert(s.subrange(0, i) =~= s);
    } else if all_digits(s) {
        assert(s.subrange(0, i + 1).drop_last() =~= s.subrange(0, i));
        assert('0' <= s[i] <= '9');
        assert(digits_value(s.subrange(0, i + 1)) == digits_value(s.subrange(0, i)) * 10 + (
        s.subrange(0, i + 1).last() as int - '0' as int));
        lemma_digits_value_monotone(s, i + 1);
    }
}

/// True when the two strings hold the same characters.
pub fn str_eq(a: &str, b: &str) -> (r: bool)
    ensures
        r == (a@ == b@),
{
    let na = a.unicode_len();
    let nb = b.unicode_len();
    if na != nb {
        return false;
    }
    let mut i: usize = 0;
    while i < na
        invariant
            0 <= i <= na,
            na == a@.len() == b@.len(),
            forall|k: int| 0 <= k < i ==> a@[k] == b@[k],
        decreases na - i,
    {
        if a.get_char(i) != b.get_char(i) {
            return false;
        }
        i = i + 1;
    }
    proof {
        assert(a@ =~= b@);
    }
    true
}

/// Whether `paths` holds a string equal to `p`.
pub open spec fn path_selected(paths: Seq<String>, p: Seq<char>) -> bool {
    exists|i: int| 0 <= i < paths.len() && paths[i]@ == p
}

/// True when the selection contains the given path.
pub fn selection_contains(paths: &Vec<String>, p: &str) -> (r: bool)
    ensures
        r == path_selected(paths@, p@),
{
    let mut i: usize = 0;
    while i < paths.len()
        invariant
            0 <= i <= paths@.len(),
            forall|k: int| 0 <= k < i ==> paths@[k]@ != p@,
        decreases paths@.len() - i,
    {
        if str_eq(paths[i].as_str(), p) {
            return true;
        }
        i = i + 1;
    }
    false
}

} // verus!
