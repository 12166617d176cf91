//! Parameter types for each tool, and the checked builders that turn raw
//! extracted JSON fields into them. A missing or ill-typed field yields a
//! parameter error naming the field, before any side effect.

use vstd::prelude::*;
use crate::envelope::ToolError;

verus! {

/// Parameters of the commit tool.
#[derive(Clone, Debug)]
pub struct CommitParameters {
    pub message_title: String,
    pub message_body: String,
    pub branch_name: String,
    pub branch_description: String,
    pub files: Vec<String>,
}

/// Parameters of the branch creation tool.
#[derive(Clone, Debug)]
pub struct CreateBranchParameters {
    pub branch_name: String,
    pub branch_description: String,
}

/// Parameters of the amend tool. An empty `files` selection amends only the
/// message.
#[derive(Clone, Debug)]
pub struct AmendParameters {
    pub commit_id: String,
    pub message_title: String,
    pub message_body: String,
    pub stack_id: String,
    pub files: Vec<String>,
}

/// Parameters of the project status tool. `filter_changes` limits the file
/// changes returned; absent means all.
#[derive(Clone, Debug)]
pub struct GetProjectStatusParameters {
    pub filter_changes: Option<Vec<String>>,
}

/// Parameters of the blank commit tool: the commit is inserted immediately
/// above `parent_id` on the given stack.
#[derive(Clone, Debug)]
pub struct CreateBlankCommitParameters {
    pub message_title: String,
    pub message_body: String,
    pub stack_id: String,
    pub parent_id: String,
}

/// Parameters of the move tool: the named files move from the source commit's
/// content to the destination commit's content.
#[derive(Clone, Debug)]
pub struct MoveFileChangesParameters {
    pub source_commit_id: String,
    pub source_stack_id: String,
    pub destination_commit_id: String,
    pub destination_stack_id: String,
    pub files: Vec<String>,
}

/// Parameters of the commit details tool.
#[derive(Clone, Debug)]
pub struct GetCommitDetailsParameters {
    pub commit_id: String,
}

/// Parameters of an absorb step: the message to use for an amended commit.
#[derive(Clone, Debug)]
pub struct AbsorbSpec {
    pub commit_title: String,
    pub commit_description: String,
}

/// A required field that was extracted, or the error naming it.
fn require_string(field: Option<String>, name: &str) -> (r: Result<String, ToolError>)
    ensures
        r is Ok <==> field is Some,
        r is Ok ==> r->Ok_0 == field->0,
        r is Err ==> r->Err_0 is Parameter,
{
    match field {
        Some(s) => Ok(s),
        None => Err(ToolError::Parameter(name.to_owned())),
    }
}

/// A required string-list field that was extracted, or the error naming it.
fn require_list(field: Option<Vec<String>>, name: &str) -> (r: Result<Vec<String>, ToolError>)
    ensures
        r is Ok <==> field is Some,
        r is Ok ==> r->Ok_0 == field->0,
        r is Err ==> r->Err_0 is Parameter,
{
    match field {
        Some(s) => Ok(s),
        None => Err(ToolError::Parameter(name.to_owned())),
    }
}

/// Assemble commit parameters from extracted fields: succeeds exactly when
/// every field is present, and carries each through unchanged.
pub fn build_commit_parameters(
    message_title: Option<String>,
    message_body: Option<String>,
    branch_name: Option<String>,
    branch_description: Option<String>,
    files: Option<Vec<String>>,
) -> (r: Result<CommitParameters, ToolError>)
    ensures
        r is Ok <==> message_title is Some && message_body is Some && branch_name is Some
            && branch_description is Some && files is Some,
        r is Ok ==> r->Ok_0 == (CommitParameters {
            message_title: message_title->0,
            message_body: message_body->0,
            branch_name: branch_name->0,
            branch_description: branch_description->0,
            files: files->0,
        }),
        r is Err ==> r->Err_0 is Parameter,
{
    let message_title = require_string(message_title, "missing field: messageTitle")?;
    let message_body = require_string(message_body, "missing field: messageBody")?;
    let branch_name = require_string(branch_name, "missing field: branchName")?;
    let branch_description = require_string(
        branch_description,
        "missing field: branchDescription",
    )?;
    let files = require_list(files, "missing field: files")?;
    Ok(CommitParameters { message_title, message_body, branch_name, branch_description, files })
}

/// Assemble branch-creation parameters; succeeds exactly when both fields are
/// present.
pub fn build_create_branch_parameters(
    branch_name: Option<String>,
    branch_description: Option<String>,
) -> (r: Result<CreateBranchParameters, ToolError>)
    ensures
        r is Ok <==> branch_name is Some && branch_description is Some,
        r is Ok ==> r->Ok_0 == (CreateBranchParameters {
            branch_name: branch_name->0,
            branch_description: branch_description->0,
        }),
        r is Err ==> r->Err_0 is Parameter,
{
    let branch_name = require_string(branch_name, "missing field: branchName")?;
    let branch_description = require_string(
        branch_description,
        "missing field: branchDescription",
    )?;
    Ok(CreateBranchParameters { branch_name, branch_description })
}

/// Assemble amend parameters; succeeds exactly when every field is present.
pub fn build_amend_parameters(
    commit_id: Option<String>,
    message_title: Option<String>,
    message_body: Option<String>,
    stack_id: Option<String>,
    files: Option<Vec<String>>,
) -> (r: Result<AmendParameters, ToolError>)
    ensures
        r is Ok <==> commit_id is Some && message_title is Some && message_body is Some
            && stack_id is Some && files is Some,
        r is Ok ==> r->Ok_0 == (AmendParameters {
            commit_id: commit_id->0,
            message_title: message_title->0,
            message_body: message_body->0,
            stack_id: stack_id->0,
            files: files->0,
        }),
        r is Err ==> r->Err_0 is Parameter,
{
    let commit_id = require_string(commit_id, "missing field: commitId")?;
    let message_title = require_string(message_title, "missing field: messageTitle")?;
    let message_body = require_string(message_body, "missing field: messageBody")?;
    let stack_id = require_string(stack_id, "missing field: stackId")?;
    let files = require_list(files, "missing field: files")?;
    Ok(AmendParameters { commit_id, message_title, message_body, stack_id, files })
}

/// Assemble blank-commit parameters; succeeds exactly when every field is
/// present.
pub fn build_create_blank_commit_parameters(
    message_title: Option<String>,
    message_body: Option<String>,
    stack_id: Option<String>,
    parent_id: Option<String>,
) -> (r: Result<CreateBlankCommitParameters, ToolError>)
    ensures
        r is Ok <==> message_title is Some && message_body is Some && stack_id is Some
            && parent_id is Some,
        r is Ok ==> r->Ok_0 == (CreateBlankCommitParameters {
            message_title: message_title->0,
            message_body: message_body->0,
            stack_id: stack_id->0,
            parent_id: parent_id->0,
        }),
        r is Err ==> r->Err_0 is Parameter,
{
    let message_title = require_string(message_title, "missing field: messageTitle")?;
    let message_body = require_string(message_body, "missing field: messageBody")?;
    let stack_id = require_string(stack_id, "missing field: stackId")?;
    let parent_id = require_string(parent_id, "missing field: parentId")?;
    Ok(CreateBlankCommitParameters { message_title, message_body, stack_id, parent_id })
}

/// Assemble move parameters; succeeds exactly when every field is present.
pub fn build_move_file_changes_parameters(
    source_commit_id: Option<String>,
    source_stack_id: Option<String>,
    destination_commit_id: Option<String>,
    destination_stack_id: Option<String>,
    files: Option<Vec<String>>,
) -> (r: Result<MoveFileChangesParameters, ToolError>)
    ensures
        r is Ok <==> source_commit_id is Some && source_stack_id is Some && destination_commit_id
            is Some && destination_stack_id is Some && files is Some,
        r is Ok ==> r->Ok_0 == (MoveFileChangesParameters {
            source_commit_id: source_commit_id->0,
            source_stack_id: source_stack_id->0,
            destination_commit_id: destination_commit_id->0,
            destination_stack_id: destination_stack_id->0,
            files: files->0,
        }),
        r is Err ==> r->Err_0 is Parameter,
{
    let source_commit_id = require_string(source_commit_id, "missing field: sourceCommitId")?;
    let source_stack_id = require_string(source_stack_id, "missing field: sourceStackId")?;
    let destination_commit_id = require_string(
        destination_commit_id,
        "missing field: destinationCommitId",
    )?;
    let destination_stack_id = require_string(
        destination_stack_id,
        "missing field: destinationStackId",
    )?;
    let files = require_list(files, "missing field: files")?;
    Ok(
        MoveFileChangesParameters {
            source_commit_id,
            source_stack_id,
            destination_commit_id,
            destination_stack_id,
            files,
        },
    )
}

/// Assemble commit-details parameters; succeeds exactly when the commit id is
/// present.
pub fn build_get_commit_details_parameters(commit_id: Option<String>) -> (r: Result<
    GetCommitDetailsParameters,
    ToolError,
>)
    ensures
        r is Ok <==> commit_id is Some,
        r is Ok ==> r->Ok_0 == (GetCommitDetailsParameters { commit_id: commit_id->0 }),
        r is Err ==> r->Err_0 is Parameter,
{
    let commit_id = require_string(commit_id, "missing field: commitId")?;
    Ok(GetCommitDetailsParameters { commit_id })
}

/// Extract commit parameters from a JSON object: succeeds exactly when every
/// field is present with the right type, and carries the field contents
/// through unchanged.
pub fn parse_commit_parameters(v: &serde_json::Value) -> (r: Result<CommitParameters, ToolError>)
    ensures
        r is Ok <==> crate::jsonio::str_field_of(*v, ("messageTitle")@) is Some
            && crate::jsonio::str_field_of(*v, ("messageBody")@) is Some
            && crate::jsonio::str_field_of(*v, ("branchName")@) is Some
            && crate::jsonio::str_field_of(*v, ("branchDescription")@) is Some
            && crate::jsonio::list_field_of(*v, ("files")@) is Some,
        r is Ok ==> {
            let p = r->Ok_0;
            &&& Some(p.message_title@) == crate::jsonio::str_field_of(*v, ("messageTitle")@)
            &&& Some(p.message_body@) == crate::jsonio::str_field_of(*v, ("messageBody")@)
            &&& Some(p.branch_name@) == crate::jsonio::str_field_of(*v, ("branchName")@)
            &&& Some(p.branch_description@) == crate::jsonio::str_field_of(
                *v,
                ("branchDescription")@,
            )
            &&& Some(crate::jsonio::strings_view(p.files@)) == crate::jsonio::list_field_of(
                *v,
                ("files")@,
            )
        },
        r is Err ==> r->Err_0 is Parameter,
{
    build_commit_parameters(
        crate::jsonio::read_string_field(v, "messageTitle"),
        crate::jsonio::read_string_field(v, "messageBody"),
        crate::jsonio::read_string_field(v, "branchName"),
        crate::jsonio::read_string_field(v, "branchDescription"),
        crate::jsonio::read_string_list_field(v, "files"),
    )
}

/// Extract branch-creation parameters from a JSON object: succeeds exactly
/// when both fields are present as strings, carried through unchanged.
pub fn parse_create_branch_parameters(v: &serde_json::Value) -> (r: Result<
    CreateBranchParameters,
    ToolError,
>)
    ensures
        r is Ok <==> crate::jsonio::str_field_of(*v, ("branchName")@) is Some
            && crate::jsonio::str_field_of(*v, ("branchDescription")@) is Some,
        r is Ok ==> {
            let p = r->Ok_0;
            &&& Some(p.branch_name@) == crate::jsonio::str_field_of(*v, ("branchName")@)
            &&& Some(p.branch_description@) == crate::jsonio::str_field_of(
                *v,
                ("branchDescription")@,
            )
        },
        r is Err ==> r->Err_0 is Parameter,
{
    build_create_branch_parameters(
        crate::jsonio::read_string_field(v, "branchName"),
        crate::jsonio::read_string_field(v, "branchDescription"),
    )
}

/// Extract amend parameters from a JSON object: succeeds exactly when every
/// field is present with the right type, carried through unchanged.
pub fn parse_amend_parameters(v: &serde_json::Value) -> (r: Result<AmendParameters, ToolError>)
    ensures
        r is Ok <==> crate::jsonio::str_field_of(*v, ("commitId")@) is Some
            && crate::jsonio::str_field_of(*v, ("messageTitle")@) is Some
            && crate::jsonio::str_field_of(*v, ("messageBody")@) is Some
            && crate::jsonio::str_field_of(*v, ("stackId")@) is Some
            && crate::jsonio::list_field_of(*v, ("files")@) is Some,
        r is Ok ==> {
            let p = r->Ok_0;
            &&& Some(p.commit_id@) == crate::jsonio::str_field_of(*v, ("commitId")@)
            &&& Some(p.message_title@) == crate::jsonio::str_field_of(*v, ("messageTitle")@)
            &&& Some(p.message_body@) == crate::jsonio::str_field_of(*v, ("messageBody")@)
            &&& Some(p.stack_id@) == crate::jsonio::str_field_of(*v, ("stackId")@)
            &&& Some(crate::jsonio::strings_view(p.files@)) == crate::jsonio::list_field_of(
                *v,
                ("files")@,
            )
        },
        r is Err ==> r->Err_0 is Parameter,
{
    build_amend_parameters(
        crate::jsonio::read_string_field(v, "commitId"),
        crate::jsonio::read_string_field(v, "messageTitle"),
        crate::jsonio::read_string_field(v, "messageBody"),
        crate::jsonio::read_string_field(v, "stackId"),
        crate::jsonio::read_string_list_field(v, "files"),
    )
}

/// Extract status parameters from a JSON object: an absent or null filter
/// means no filtering, a present filter must be an array of strings.
pub fn parse_get_project_status_parameters(v: &serde_json::Value) -> (r: Result<
    GetProjectStatusParameters,
    ToolError,
>)
    ensures
        r is Err <==> (crate::jsonio::field_of(*v, ("filterChanges")@) matches Some(f)
            && !crate::jsonio::null_of(f) && crate::jsonio::strings_of(f) is None),
        r is Err ==> r->Err_0 is Parameter,
        r is Ok ==> match crate::jsonio::field_of(*v, ("filterChanges")@) {
            None => r->Ok_0.filter_changes is None,
            Some(f) => if crate::jsonio::null_of(f) {
                r->Ok_0.filter_changes is None
            } else {
                r->Ok_0.filter_changes matches Some(l) && Some(crate::jsonio::strings_view(l@))
                    == crate::jsonio::strings_of(f)
            },
        },
{
    match crate::jsonio::json_get(v, "filterChanges") {
        None => Ok(GetProjectStatusParameters { filter_changes: None }),
        Some(f) => {
            if crate::jsonio::json_is_null(f) {
                return Ok(GetProjectStatusParameters { filter_changes: None });
            }
            match crate::jsonio::read_string_list(f) {
                Some(list) => Ok(GetProjectStatusParameters { filter_changes: Some(list) }),
                None => Err(
                    ToolError::Parameter("filterChanges must be a list of paths".to_owned()),
                ),
            }
        },
    }
}

/// Extract blank-commit parameters from a JSON object: succeeds exactly when
/// every field is present as a string, carried through unchanged.
pub fn parse_create_blank_commit_parameters(v: &serde_json::Value) -> (r: Result<
    CreateBlankCommitParameters,
    ToolError,
>)
    ensures
        r is Ok <==> crate::jsonio::str_field_of(*v, ("messageTitle")@) is Some
            && crate::jsonio::str_field_of(*v, ("messageBody")@) is Some
            && crate::jsonio::str_field_of(*v, ("stackId")@) is Some
            && crate::jsonio::str_field_of(*v, ("parentId")@) is Some,
        r is Ok ==> {
            let p = r->Ok_0;
            &&& Some(p.message_title@) == crate::jsonio::str_field_of(*v, ("messageTitle")@)
            &&& Some(p.message_body@) == crate::jsonio::str_field_of(*v, ("messageBody")@)
            &&& Some(p.stack_id@) == crate::jsonio::str_field_of(*v, ("stackId")@)
            &&& Some(p.parent_id@) == crate::jsonio::str_field_of(*v, ("parentId")@)
        },
        r is Err ==> r->Err_0 is Parameter,
{
    build_create_blank_commit_parameters(
        crate::jsonio::read_string_field(v, "messageTitle"),
        crate::jsonio::read_string_field(v, "messageBody"),
        crate::jsonio::read_string_field(v, "stackId"),
        crate::jsonio::read_string_field(v, "parentId"),
    )
}

/// Extract move parameters from a JSON object: succeeds exactly when every
/// field is present with the right type, carried through unchanged.
pub fn parse_move_file_changes_parameters(v: &serde_json::Value) -> (r: Result<
    MoveFileChangesParameters,
    ToolError,
>)
    ensures
        r is Ok <==> crate::jsonio::str_field_of(*v, ("sourceCommitId")@) is Some
            && crate::jsonio::str_field_of(*v, ("sourceStackId")@) is Some
            && crate::jsonio::str_field_of(*v, ("destinationCommitId")@) is Some
            && crate::jsonio::str_field_of(*v, ("destinationStackId")@) is Some
            && crate::jsonio::list_field_of(*v, ("files")@) is Some,
        r is Ok ==> {
            let p = r->Ok_0;
            &&& Some(p.source_commit_id@) == crate::jsonio::str_field_of(*v, ("sourceCommitId")@)
            &&& Some(p.source_stack_id@) == crate::jsonio::str_field_of(*v, ("sourceStackId")@)
            &&& Some(p.destination_commit_id@) == crate::jsonio::str_field_of(
                *v,
                ("destinationCommitId")@,
            )
            &&& Some(p.destination_stack_id@) == crate::jsonio::str_field_of(
                *v,
                ("destinationStackId")@,
            )
            &&& Some(crate::jsonio::strings_view(p.files@)) == crate::jsonio::list_field_of(
                *v,
                ("files")@,
            )
        },
        r is Err ==> r->Err_0 is Parameter,
{
    build_move_file_changes_parameters(
        crate::jsonio::read_string_field(v, "sourceCommitId"),
        crate::jsonio::read_string_field(v, "sourceStackId"),
        crate::jsonio::read_string_field(v, "destinationCommitId"),
        crate::jsonio::read_string_field(v, "destinationStackId"),
        crate::jsonio::read_string_list_field(v, "files"),
    )
}

/// Extract commit-details parameters from a JSON object: succeeds exactly
/// when the commit id is present as a string, carried through unchanged.
pub fn parse_get_commit_details_parameters(v: &serde_json::Value) -> (r: Result<
    GetCommitDetailsParameters,
    ToolError,
>)
    ensures
        r is Ok <==> crate::jsonio::str_field_of(*v, ("commitId")@) is Some,
        r is Ok ==> Some(r->Ok_0.commit_id@) == crate::jsonio::str_field_of(*v, ("commitId")@),
        r is Err ==> r->Err_0 is Parameter,
{
    build_get_commit_details_parameters(crate::jsonio::read_string_field(v, "commitId"))
}

} // verus!
