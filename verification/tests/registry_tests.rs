use but_tools::envelope::EnvelopeStatus;
use but_tools::envelope::ToolError;
use but_tools::envelope::ToolPayload;
use but_tools::model::ChangeStatus;
use but_tools::model::Hunk;
use but_tools::model::HunkHeader;
use but_tools::model::Workspace;
use but_tools::model::WorktreeChange;
use but_tools::registry::amend_toolset;
use but_tools::registry::commit_toolset;
use but_tools::registry::workspace_toolset;
use but_tools::registry::Amend;
use but_tools::registry::Commit;
use but_tools::registry::CreateBranch;
use but_tools::registry::FieldKind;
use but_tools::registry::GetCommitDetails;
use but_tools::registry::GetProjectStatus;
use but_tools::registry::ToolKind;
use serde_json::Value;

fn obj(fields: &[(&str, Value)]) -> Value {
    let mut m = serde_json::Map::new();
    for (k, v) in fields {
        m.insert(k.to_string(), v.clone());
    }
    Value::Object(m)
}

fn s(v: &str) -> Value {
    Value::String(v.to_string())
}

fn strings(items: &[&str]) -> Value {
    Value::Array(items.iter().map(|i| s(i)).collect())
}

fn workspace_with_pending(path: &str) -> Workspace {
    let mut ws = Workspace::new();
    ws.pending.push(WorktreeChange {
        path: path.to_string(),
        status: ChangeStatus::Modified,
        hunks: vec![Hunk {
            header: HunkHeader { old_start: 1, old_lines: 1, new_start: 1, new_lines: 2 },
            diff: "@@ x @@".to_string(),
        }],
        has_patch: true,
    });
    ws
}

#[test]
fn toolsets_register_the_documented_tools() {
    let all = workspace_toolset("message-7".to_string());
    assert_eq!(
        all.tools,
        vec![
            ToolKind::Commit,
            ToolKind::CreateBranch,
            ToolKind::Amend,
            ToolKind::GetProjectStatus,
            ToolKind::CreateBlankCommit,
            ToolKind::MoveFileChanges,
            ToolKind::GetCommitDetails,
        ]
    );
    assert_eq!(all.message_id, Some("message-7".to_string()));
    assert_eq!(commit_toolset().tools, vec![ToolKind::Commit, ToolKind::CreateBranch]);
    assert_eq!(amend_toolset().tools, vec![ToolKind::Amend, ToolKind::GetProjectStatus]);
}

#[test]
fn tool_names_are_stable() {
    assert_eq!(Commit.name(), "commit");
    assert_eq!(CreateBranch.name(), "create_branch");
    assert_eq!(Amend.name(), "amend");
    assert_eq!(GetProjectStatus.name(), "get_project_status");
    assert_eq!(GetCommitDetails.name(), "get_commit_details");
    assert!(!Commit.description().is_empty());
}

#[test]
fn commit_schema_lists_its_fields() {
    let schema = Commit.parameters();
    let names: Vec<&str> = schema.fields.iter().map(|f| f.name.as_str()).collect();
    assert_eq!(
        names,
        vec!["messageTitle", "messageBody", "branchName", "branchDescription", "files"]
    );
    assert!(schema.fields.iter().take(4).all(|f| f.kind == FieldKind::Text && f.required));
    assert_eq!(schema.fields[4].kind, FieldKind::TextList);
}

#[test]
fn dispatch_commit_creates_branch_and_commit() {
    // The scenario of committing auth.go to a branch that does not exist yet.
    let mut ws = workspace_with_pending("auth.go");
    let toolset = workspace_toolset("m1".to_string());
    let params = obj(&[
        ("messageTitle", s("Fix login")),
        ("messageBody", s("Adjust token check")),
        ("branchName", s("fix-login")),
        ("branchDescription", s("login work")),
        ("files", strings(&["auth.go"])),
    ]);
    let e = toolset.dispatch(&mut ws, "commit", &params);
    assert_eq!(e.status, EnvelopeStatus::Success);
    assert_eq!(e.action_identifier, "create_commit");
    assert!(e.error.is_none());
    match e.payload.unwrap() {
        ToolPayload::Commit { commit_id, stack_id } => {
            assert_eq!(ws.stacks.len(), 1);
            assert_eq!(ws.stacks[0].id, stack_id);
            assert_eq!(ws.stacks[0].branches[0].name, "fix-login");
            assert_eq!(ws.stacks[0].branches[0].commits[0].id, commit_id);
            assert_eq!(ws.stacks[0].branches[0].commits[0].changes[0].path, "auth.go");
        },
        other => panic!("unexpected payload: {:?}", other),
    }
    assert_eq!(ws.pending.len(), 0);
}

#[test]
fn dispatch_rejects_malformed_parameters_without_side_effects() {
    let mut ws = workspace_with_pending("auth.go");
    let before = ws.clone();
    let toolset = workspace_toolset("m1".to_string());
    // messageBody is missing; files has the wrong type.
    let params = obj(&[
        ("messageTitle", s("Fix login")),
        ("branchName", s("fix-login")),
        ("branchDescription", s("login work")),
        ("files", s("auth.go")),
    ]);
    let e = toolset.dispatch(&mut ws, "commit", &params);
    assert_eq!(e.status, EnvelopeStatus::Error);
    assert!(matches!(e.error, Some(ToolError::Parameter(_))));
    assert!(e.payload.is_none());
    assert_eq!(ws, before);
}

#[test]
fn dispatch_of_unknown_tool_is_an_error() {
    let mut ws = Workspace::new();
    let before = ws.clone();
    let toolset = commit_toolset();
    let e = toolset.dispatch(&mut ws, "amend", &obj(&[]));
    assert_eq!(e.status, EnvelopeStatus::Error);
    assert!(matches!(e.error, Some(ToolError::Reference(_))));
    assert_eq!(ws, before);
}

#[test]
fn dispatch_status_reads_without_mutation() {
    let mut ws = workspace_with_pending("a.go");
    let before = ws.clone();
    let toolset = workspace_toolset("m1".to_string());
    let e = toolset.dispatch(&mut ws, "get_project_status", &obj(&[]));
    assert_eq!(e.status, EnvelopeStatus::Success);
    assert_eq!(e.action_identifier, "get_project_status");
    match e.payload.unwrap() {
        ToolPayload::Status { status } => {
            assert_eq!(status.file_changes.len(), 1);
            assert_eq!(status.file_changes[0].path, "a.go");
        },
        other => panic!("unexpected payload: {:?}", other),
    }
    assert_eq!(ws, before);
}

#[test]
fn dispatch_status_accepts_null_filter() {
    let mut ws = workspace_with_pending("a.go");
    let toolset = workspace_toolset("m1".to_string());
    let e = toolset.dispatch(
        &mut ws,
        "get_project_status",
        &obj(&[("filterChanges", Value::Null)]),
    );
    assert_eq!(e.status, EnvelopeStatus::Success);
    let e2 = toolset.dispatch(
        &mut ws,
        "get_project_status",
        &obj(&[("filterChanges", s("not-a-list"))]),
    );
    assert_eq!(e2.status, EnvelopeStatus::Error);
    assert!(matches!(e2.error, Some(ToolError::Parameter(_))));
}

#[test]
fn dispatch_blank_commit_returns_remap_pairs() {
    let mut ws = workspace_with_pending("a.go");
    let toolset = workspace_toolset("m1".to_string());
    let commit_params = obj(&[
        ("messageTitle", s("Base")),
        ("messageBody", s("work")),
        ("branchName", s("topic")),
        ("branchDescription", s("d")),
        ("files", strings(&["a.go"])),
    ]);
    let e1 = toolset.dispatch(&mut ws, "commit", &commit_params);
    assert_eq!(e1.status, EnvelopeStatus::Success);
    let parent_id = ws.stacks[0].branches[0].commits[0].id;
    let stack_id = ws.stacks[0].id;
    let blank_params = obj(&[
        ("messageTitle", s("Blank")),
        ("messageBody", s("")),
        ("stackId", s(&stack_id.to_string())),
        ("parentId", s(&parent_id.to_string())),
    ]);
    let e2 = toolset.dispatch(&mut ws, "create_blank_commit", &blank_params);
    assert_eq!(e2.status, EnvelopeStatus::Success);
    match e2.payload.unwrap() {
        ToolPayload::Remap { pairs } => {
            assert_eq!(pairs.len(), 1);
            assert_ne!(pairs[0].0, pairs[0].1);
        },
        other => panic!("unexpected payload: {:?}", other),
    }
    assert_eq!(ws.stacks[0].branches[0].commits.len(), 2);
}
