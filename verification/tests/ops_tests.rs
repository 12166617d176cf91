use but_tools::envelope::ToolError;
use but_tools::model::Branch;
use but_tools::model::ChangeStatus;
use but_tools::model::CommitChange;
use but_tools::model::CommitEntry;
use but_tools::model::Hunk;
use but_tools::model::HunkHeader;
use but_tools::model::Stack;
use but_tools::model::Workspace;
use but_tools::model::WorktreeChange;
use but_tools::ops::amend_commit_inner;
use but_tools::ops::create_blank_commit;
use but_tools::ops::create_branch;
use but_tools::ops::create_commit;
use but_tools::ops::move_file_changes;
use but_tools::params::AmendParameters;
use but_tools::params::CommitParameters;
use but_tools::params::CreateBlankCommitParameters;
use but_tools::params::CreateBranchParameters;
use but_tools::params::MoveFileChangesParameters;

fn pending_change(path: &str) -> WorktreeChange {
    WorktreeChange {
        path: path.to_string(),
        status: ChangeStatus::Modified,
        hunks: vec![Hunk {
            header: HunkHeader { old_start: 1, old_lines: 2, new_start: 1, new_lines: 3 },
            diff: format!("@@ patch for {} @@", path),
        }],
        has_patch: true,
    }
}

fn commit(id: u64, message: &str, paths: &[&str]) -> CommitEntry {
    CommitEntry {
        id,
        message: message.to_string(),
        changes: paths
            .iter()
            .map(|p| CommitChange {
                path: p.to_string(),
                status: ChangeStatus::Modified,
                hunks: vec![],
            })
            .collect(),
    }
}

#[test]
fn commit_on_fresh_workspace_creates_stack_and_commit() {
    // A workspace with no "fix-login" branch and two pending changes.
    let mut ws = Workspace::new();
    ws.pending.push(pending_change("auth.go"));
    ws.pending.push(pending_change("readme.md"));

    let params = CommitParameters {
        message_title: "Fix login".to_string(),
        message_body: "Adjust token check".to_string(),
        branch_name: "fix-login".to_string(),
        branch_description: "login fixes".to_string(),
        files: vec!["auth.go".to_string()],
    };
    let out = create_commit(&mut ws, &params).unwrap();

    assert_eq!(ws.stacks.len(), 1);
    let stack = &ws.stacks[0];
    assert_eq!(stack.id, out.stack_id);
    assert_eq!(stack.name, "fix-login");
    assert_eq!(stack.branches.len(), 1);
    let branch = &stack.branches[0];
    assert_eq!(branch.name, "fix-login");
    assert_eq!(branch.description, Some("login fixes".to_string()));
    assert_eq!(branch.commits.len(), 1);
    let cm = &branch.commits[0];
    assert_eq!(cm.id, out.commit_id);
    assert_eq!(cm.message, "Fix login\n\nAdjust token check");
    // Only the selected file participates.
    assert_eq!(cm.changes.len(), 1);
    assert_eq!(cm.changes[0].path, "auth.go");
    // The unselected change stays pending.
    assert_eq!(ws.pending.len(), 1);
    assert_eq!(ws.pending[0].path, "readme.md");
    // The snapshot log recorded the outcome and the stack was queued.
    assert_eq!(ws.snapshots.len(), 1);
    assert!(ws.snapshots[0].success);
    assert_eq!(ws.notifications, vec![out.stack_id]);
}

#[test]
fn commit_to_existing_branch_reuses_stack() {
    let mut ws = Workspace::new();
    ws.pending.push(pending_change("a.rs"));
    let first = CommitParameters {
        message_title: "One".to_string(),
        message_body: "".to_string(),
        branch_name: "topic".to_string(),
        branch_description: "first description".to_string(),
        files: vec!["a.rs".to_string()],
    };
    let out1 = create_commit(&mut ws, &first).unwrap();

    ws.pending.push(pending_change("b.rs"));
    let second = CommitParameters {
        message_title: "Two".to_string(),
        message_body: "".to_string(),
        branch_name: "topic".to_string(),
        branch_description: "second description".to_string(),
        files: vec!["b.rs".to_string()],
    };
    let out2 = create_commit(&mut ws, &second).unwrap();

    // No new stack; the existing stack id is reused.
    assert_eq!(ws.stacks.len(), 1);
    assert_eq!(out1.stack_id, out2.stack_id);
    // The description is overwritten, not merged.
    assert_eq!(
        ws.stacks[0].branches[0].description,
        Some("second description".to_string())
    );
    // The new commit sits at the tip.
    assert_eq!(ws.stacks[0].branches[0].commits.len(), 2);
    assert_eq!(ws.stacks[0].branches[0].commits[0].id, out2.commit_id);
}

#[test]
fn create_branch_sets_description_exactly() {
    let mut ws = Workspace::new();
    let params = CreateBranchParameters {
        branch_name: "feature-x".to_string(),
        branch_description: "exactly this text".to_string(),
    };
    let out = create_branch(&mut ws, &params).unwrap();
    assert_eq!(out.branch_name, "feature-x");
    assert_eq!(ws.stacks.len(), 1);
    assert_eq!(
        ws.stacks[0].branches[0].description,
        Some("exactly this text".to_string())
    );
    assert_eq!(ws.notifications, vec![out.stack_id]);
}

#[test]
fn create_branch_rejects_existing_name() {
    let mut ws = Workspace::new();
    let params = CreateBranchParameters {
        branch_name: "dup".to_string(),
        branch_description: "d".to_string(),
    };
    create_branch(&mut ws, &params).unwrap();
    let again = create_branch(&mut ws, &params);
    assert!(matches!(again, Err(ToolError::Engine(_))));
    assert_eq!(ws.stacks.len(), 1);
}

#[test]
fn amend_with_empty_selection_changes_only_message() {
    let mut ws = Workspace::new();
    ws.stacks.push(Stack {
        id: 1,
        name: "topic".to_string(),
        branches: vec![Branch {
            name: "topic".to_string(),
            description: None,
            commits: vec![commit(2, "Old title\n\nOld body", &["x.rs", "y.rs"])],
            archived: false,
        }],
    });
    ws.pending.push(pending_change("z.rs"));
    ws.next_id = 3;

    let params = AmendParameters {
        commit_id: "2".to_string(),
        message_title: "New title".to_string(),
        message_body: "New body".to_string(),
        stack_id: "1".to_string(),
        files: vec![],
    };
    let out = amend_commit_inner(&mut ws, &params).unwrap();

    let cm = &ws.stacks[0].branches[0].commits[0];
    assert_eq!(cm.message, "New title\n\nNew body");
    // The content-affecting file set is unchanged.
    let paths: Vec<&str> = cm.changes.iter().map(|c| c.path.as_str()).collect();
    assert_eq!(paths, vec!["x.rs", "y.rs"]);
    // The commit got a fresh identifier; the pending change was not absorbed.
    assert_ne!(cm.id, 2);
    assert_eq!(cm.id, out.commit_id);
    assert_eq!(ws.pending.len(), 1);
}

#[test]
fn amend_absorbs_selected_changes() {
    let mut ws = Workspace::new();
    ws.stacks.push(Stack {
        id: 1,
        name: "topic".to_string(),
        branches: vec![Branch {
            name: "topic".to_string(),
            description: None,
            commits: vec![commit(2, "T\n\nB", &["x.rs"])],
            archived: false,
        }],
    });
    ws.pending.push(pending_change("z.rs"));
    ws.next_id = 3;

    let params = AmendParameters {
        commit_id: "2".to_string(),
        message_title: "T".to_string(),
        message_body: "B".to_string(),
        stack_id: "1".to_string(),
        files: vec!["z.rs".to_string()],
    };
    amend_commit_inner(&mut ws, &params).unwrap();
    let cm = &ws.stacks[0].branches[0].commits[0];
    let paths: Vec<&str> = cm.changes.iter().map(|c| c.path.as_str()).collect();
    assert_eq!(paths, vec!["x.rs", "z.rs"]);
    assert_eq!(ws.pending.len(), 0);
}

#[test]
fn amend_with_unknown_stack_is_a_reference_error() {
    let mut ws = Workspace::new();
    let params = AmendParameters {
        commit_id: "2".to_string(),
        message_title: "T".to_string(),
        message_body: "B".to_string(),
        stack_id: "77".to_string(),
        files: vec![],
    };
    let r = amend_commit_inner(&mut ws, &params);
    assert!(matches!(r, Err(ToolError::Reference(_))));
    assert_eq!(ws, Workspace::new());
}

#[test]
fn amend_with_unparsable_id_is_a_reference_error() {
    let mut ws = Workspace::new();
    let params = AmendParameters {
        commit_id: "2".to_string(),
        message_title: "T".to_string(),
        message_body: "B".to_string(),
        stack_id: "not-a-number".to_string(),
        files: vec![],
    };
    let r = amend_commit_inner(&mut ws, &params);
    assert!(matches!(r, Err(ToolError::Reference(_))));
}

#[test]
fn blank_commit_remaps_every_downstream_commit() {
    // Stack 1 holds, tip first: 5, 4, 3, 2 (the parent), 1.
    let mut ws = Workspace::new();
    ws.stacks.push(Stack {
        id: 1,
        name: "topic".to_string(),
        branches: vec![Branch {
            name: "topic".to_string(),
            description: None,
            commits: vec![
                commit(5, "e", &[]),
                commit(4, "d", &[]),
                commit(3, "c", &[]),
                commit(2, "b", &[]),
                commit(1, "a", &[]),
            ],
            archived: false,
        }],
    });
    ws.next_id = 6;

    let params = CreateBlankCommitParameters {
        message_title: "Split point".to_string(),
        message_body: "".to_string(),
        stack_id: "1".to_string(),
        parent_id: "2".to_string(),
    };
    let remap = create_blank_commit(&mut ws, &params).unwrap();

    // The inserted commit plus the three commits above it: four pairs.
    assert_eq!(remap.len(), 4);
    for (old, new) in &remap {
        assert_ne!(old, new);
    }
    // The stack grew by one commit; the parent and the base are untouched.
    let commits = &ws.stacks[0].branches[0].commits;
    assert_eq!(commits.len(), 6);
    assert_eq!(commits[3].message, "Split point\n\n");
    assert_eq!(commits[3].changes.len(), 0);
    assert_eq!(commits[4].id, 2);
    assert_eq!(commits[5].id, 1);
    // The commits above the insertion kept their messages under new ids.
    assert_eq!(commits[0].message, "e");
    assert_ne!(commits[0].id, 5);
}

#[test]
fn move_between_stacks_returns_remap_for_both_sides() {
    // Stack A, tip first: 13, 12, 11, 10 (X at the bottom carries util.go).
    // Stack B: 20 (Y).
    let mut ws = Workspace::new();
    ws.stacks.push(Stack {
        id: 1,
        name: "a".to_string(),
        branches: vec![Branch {
            name: "a".to_string(),
            description: None,
            commits: vec![
                commit(13, "a3", &[]),
                commit(12, "a2", &[]),
                commit(11, "a1", &[]),
                commit(10, "x", &["util.go", "other.go"]),
            ],
            archived: false,
        }],
    });
    ws.stacks.push(Stack {
        id: 2,
        name: "b".to_string(),
        branches: vec![Branch {
            name: "b".to_string(),
            description: None,
            commits: vec![commit(20, "y", &["b.go"])],
            archived: false,
        }],
    });
    ws.next_id = 21;

    let params = MoveFileChangesParameters {
        source_commit_id: "10".to_string(),
        source_stack_id: "1".to_string(),
        destination_commit_id: "20".to_string(),
        destination_stack_id: "2".to_string(),
        files: vec!["util.go".to_string()],
    };
    let remap = move_file_changes(&mut ws, &params).unwrap();

    // X and its three descendants, plus Y: at least four pairs, here five.
    assert!(remap.len() >= 4);
    assert_eq!(remap.len(), 5);
    for (old, new) in &remap {
        assert_ne!(old, new);
    }
    // The moved change left X and joined Y.
    let x = &ws.stacks[0].branches[0].commits[3];
    let x_paths: Vec<&str> = x.changes.iter().map(|c| c.path.as_str()).collect();
    assert_eq!(x_paths, vec!["other.go"]);
    let y = &ws.stacks[1].branches[0].commits[0];
    let y_paths: Vec<&str> = y.changes.iter().map(|c| c.path.as_str()).collect();
    assert_eq!(y_paths, vec!["b.go", "util.go"]);
    // Both stacks were queued for notification, source first.
    assert_eq!(ws.notifications, vec![1, 2]);
    // The aggregate workspace commit was recomputed.
    assert_eq!(ws.workspace_commit, ws.next_id - 1);
}

#[test]
fn move_within_one_stack_remaps_from_the_lower_commit() {
    // One stack, tip first: 4 (destination), 3, 2 (source).
    let mut ws = Workspace::new();
    ws.stacks.push(Stack {
        id: 1,
        name: "a".to_string(),
        branches: vec![Branch {
            name: "a".to_string(),
            description: None,
            commits: vec![
                commit(4, "top", &[]),
                commit(3, "mid", &[]),
                commit(2, "src", &["m.go", "k.go"]),
            ],
            archived: false,
        }],
    });
    ws.next_id = 5;

    let params = MoveFileChangesParameters {
        source_commit_id: "2".to_string(),
        source_stack_id: "1".to_string(),
        destination_commit_id: "4".to_string(),
        destination_stack_id: "1".to_string(),
        files: vec!["m.go".to_string()],
    };
    let remap = move_file_changes(&mut ws, &params).unwrap();
    // The source sits at the bottom: all three commits are rebuilt.
    assert_eq!(remap.len(), 3);
    let commits = &ws.stacks[0].branches[0].commits;
    let top_paths: Vec<&str> = commits[0].changes.iter().map(|c| c.path.as_str()).collect();
    assert_eq!(top_paths, vec!["m.go"]);
    let src_paths: Vec<&str> = commits[2].changes.iter().map(|c| c.path.as_str()).collect();
    assert_eq!(src_paths, vec!["k.go"]);
}

#[test]
fn move_with_unknown_commit_leaves_workspace_untouched() {
    let mut ws = Workspace::new();
    ws.stacks.push(Stack {
        id: 1,
        name: "a".to_string(),
        branches: vec![Branch {
            name: "a".to_string(),
            description: None,
            commits: vec![commit(2, "x", &[])],
            archived: false,
        }],
    });
    ws.next_id = 3;
    let before = ws.clone();
    let params = MoveFileChangesParameters {
        source_commit_id: "99".to_string(),
        source_stack_id: "1".to_string(),
        destination_commit_id: "2".to_string(),
        destination_stack_id: "1".to_string(),
        files: vec![],
    };
    let r = move_file_changes(&mut ws, &params);
    assert!(matches!(r, Err(ToolError::Reference(_))));
    assert_eq!(ws, before);
}
