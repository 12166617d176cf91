use but_tools::model::Branch;
use but_tools::model::ChangeStatus;
use but_tools::model::CommitChange;
use but_tools::model::CommitEntry;
use but_tools::model::Hunk;
use but_tools::model::HunkAssignment;
use but_tools::model::HunkHeader;
use but_tools::model::HunkLock;
use but_tools::model::Stack;
use but_tools::model::Workspace;
use but_tools::model::WorktreeChange;
use but_tools::envelope::ToolError;
use but_tools::params::GetCommitDetailsParameters;
use but_tools::params::GetProjectStatusParameters;
use but_tools::status::commit_details;
use but_tools::status::get_project_status;
use but_tools::status::SimpleCommit;

fn header(a: u32, b: u32, c: u32, d: u32) -> HunkHeader {
    HunkHeader { old_start: a, old_lines: b, new_start: c, new_lines: d }
}

fn sample_workspace() -> Workspace {
    let mut ws = Workspace::new();
    ws.stacks.push(Stack {
        id: 1,
        name: "topic".to_string(),
        branches: vec![
            Branch {
                name: "topic".to_string(),
                description: Some("work".to_string()),
                commits: vec![CommitEntry {
                    id: 2,
                    message: "Title line\n\nBody text".to_string(),
                    changes: vec![],
                }],
                archived: false,
            },
            Branch {
                name: "old".to_string(),
                description: None,
                commits: vec![CommitEntry {
                    id: 3,
                    message: "hidden".to_string(),
                    changes: vec![],
                }],
                archived: true,
            },
            Branch {
                name: "empty".to_string(),
                description: None,
                commits: vec![],
                archived: false,
            },
        ],
    });
    // A stack whose only branch is archived disappears from the view.
    ws.stacks.push(Stack {
        id: 4,
        name: "gone".to_string(),
        branches: vec![Branch {
            name: "gone".to_string(),
            description: None,
            commits: vec![CommitEntry { id: 5, message: "m".to_string(), changes: vec![] }],
            archived: true,
        }],
    });
    ws.pending.push(WorktreeChange {
        path: "a.go".to_string(),
        status: ChangeStatus::Modified,
        hunks: vec![Hunk { header: header(1, 2, 1, 3), diff: "@@ a @@".to_string() }],
        has_patch: true,
    });
    ws.pending.push(WorktreeChange {
        path: "sub".to_string(),
        status: ChangeStatus::Modified,
        hunks: vec![],
        has_patch: false,
    });
    ws.assignments.push(HunkAssignment {
        path: "a.go".to_string(),
        header: Some(header(1, 2, 1, 3)),
        stack_id: Some(1),
        locks: vec![HunkLock { commit_id: 2 }],
    });
    ws.next_id = 6;
    ws
}

#[test]
fn status_splits_messages_and_hides_archived_and_empty() {
    let ws = sample_workspace();
    let status = get_project_status(&ws, &GetProjectStatusParameters { filter_changes: None });
    assert_eq!(status.stacks.len(), 1);
    let st = &status.stacks[0];
    assert_eq!(st.id, 1);
    assert_eq!(st.name, "topic");
    // The archived branch and the empty branch are omitted.
    assert_eq!(st.branches.len(), 1);
    let b = &st.branches[0];
    assert_eq!(b.name, "topic");
    assert_eq!(b.description, Some("work".to_string()));
    assert_eq!(b.commits.len(), 1);
    assert_eq!(b.commits[0].message_title, "Title line");
    assert_eq!(b.commits[0].message_body, "Body text");
}

#[test]
fn status_matches_assignment_on_exact_header_only() {
    let ws = sample_workspace();
    let status = get_project_status(&ws, &GetProjectStatusParameters { filter_changes: None });
    // Only the patch-bearing change is listed; the structural one is skipped.
    assert_eq!(status.file_changes.len(), 1);
    let fc = &status.file_changes[0];
    assert_eq!(fc.path, "a.go");
    assert_eq!(fc.hunks.len(), 1);
    assert_eq!(fc.hunks[0].assigned_to_stack, Some(1));
    assert_eq!(fc.hunks[0].dependency_locks, vec![HunkLock { commit_id: 2 }]);

    // The same hunk with a different header matches nothing.
    let mut ws2 = sample_workspace();
    ws2.pending[0].hunks[0].header = header(9, 9, 9, 9);
    let status2 = get_project_status(&ws2, &GetProjectStatusParameters { filter_changes: None });
    assert_eq!(status2.file_changes[0].hunks[0].assigned_to_stack, None);
    assert_eq!(status2.file_changes[0].hunks[0].dependency_locks.len(), 0);

    // The same header on a different path matches nothing either.
    let mut ws3 = sample_workspace();
    ws3.pending[0].path = "b.go".to_string();
    let status3 = get_project_status(&ws3, &GetProjectStatusParameters { filter_changes: None });
    assert_eq!(status3.file_changes[0].hunks[0].assigned_to_stack, None);
}

#[test]
fn status_filter_keeps_only_named_paths() {
    let ws = sample_workspace();
    let status = get_project_status(
        &ws,
        &GetProjectStatusParameters {
            filter_changes: Some(vec!["nope.go".to_string()]),
        },
    );
    // An unmatched filter path is dropped, not an error.
    assert_eq!(status.file_changes.len(), 0);

    let status2 = get_project_status(
        &ws,
        &GetProjectStatusParameters {
            filter_changes: Some(vec!["a.go".to_string()]),
        },
    );
    assert_eq!(status2.file_changes.len(), 1);
}

#[test]
fn status_is_identical_on_consecutive_reads() {
    let ws = sample_workspace();
    let params = GetProjectStatusParameters { filter_changes: None };
    let first = get_project_status(&ws, &params);
    let second = get_project_status(&ws, &params);
    assert_eq!(first, second);
}

#[test]
fn commit_details_reports_the_commit_changes() {
    let mut ws = sample_workspace();
    ws.stacks[0].branches[0].commits[0].changes.push(CommitChange {
        path: "done.go".to_string(),
        status: ChangeStatus::Added,
        hunks: vec![Hunk { header: header(0, 0, 1, 4), diff: "@@ new @@".to_string() }],
    });
    let details = commit_details(
        &ws,
        &GetCommitDetailsParameters { commit_id: "2".to_string() },
    )
    .unwrap();
    assert_eq!(details.len(), 1);
    assert_eq!(details[0].path, "done.go");
    assert_eq!(details[0].status, ChangeStatus::Added);
    assert_eq!(details[0].hunks.len(), 1);
    assert_eq!(details[0].hunks[0].diff, "@@ new @@");
    // Assignments apply only to pending hunks, never to commit details.
    assert_eq!(details[0].hunks[0].assigned_to_stack, None);
    assert_eq!(details[0].hunks[0].dependency_locks.len(), 0);
}

#[test]
fn commit_details_of_unknown_commit_is_a_reference_error() {
    let ws = sample_workspace();
    let r = commit_details(&ws, &GetCommitDetailsParameters { commit_id: "99".to_string() });
    assert!(matches!(r, Err(ToolError::Reference(_))));
}

#[test]
fn simple_commit_from_commit_splits_the_message() {
    let c = CommitEntry {
        id: 7,
        message: "A title\r\n\r\nA body".to_string(),
        changes: vec![],
    };
    let sc = SimpleCommit::from_commit(&c);
    assert_eq!(sc.id, 7);
    assert_eq!(sc.message_title, "A title");
    assert_eq!(sc.message_body, "A body");
}
