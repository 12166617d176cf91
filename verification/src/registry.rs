//! The tool registry: one unit struct per tool with its name, description,
//! parameter schema and invocation, and the ordered toolset that dispatches a
//! call by tool name. A malformed parameter object is reported in the
//! envelope and leaves the workspace untouched; an unknown tool name does the
//! same.

use vstd::prelude::*;
use crate::model::Workspace;
use crate::model::ws_wf;
use crate::model::str_eq;
use crate::envelope::ResultEnvelope;
use crate::envelope::ToolError;
use crate::envelope::ToolPayload;
use crate::envelope::EnvelopeStatus;
use crate::envelope::wrap_result;
use crate::envelope::envelope_wf;
use crate::params::parse_commit_parameters;
use crate::params::parse_create_branch_parameters;
use crate::params::parse_amend_parameters;
use crate::params::parse_get_project_status_parameters;
use crate::params::parse_create_blank_commit_parameters;
use crate::params::parse_move_file_changes_parameters;
use crate::params::parse_get_commit_details_parameters;
use crate::params::CommitParameters;
use crate::params::CreateBranchParameters;
use crate::params::AmendParameters;
use crate::params::CreateBlankCommitParameters;
use crate::params::MoveFileChangesParameters;
use crate::params::GetCommitDetailsParameters;
use crate::jsonio::str_field_of;
use crate::jsonio::list_field_of;
use crate::jsonio::field_of;
use crate::jsonio::null_of;
use crate::jsonio::strings_of;
use crate::ops::CommitOutcome;
use crate::ops::BranchOutcome;
use crate::ops::create_commit_post;
use crate::ops::create_branch_post;
use crate::ops::amend_post;
use crate::ops::blank_post;
use crate::ops::move_post;
use crate::status::commit_details_post;
use crate::status::project_status_view;

verus! {

broadcast use vstd::string::group_string_axioms;

/// The semantic type of one schema field.
#[derive(Clone, Copy, PartialEq, Eq, Structural, Debug)]
pub enum FieldKind {
    Text,
    TextList,
    OptionalTextList,
}

/// One field of a tool's parameter schema.
#[derive(Clone, Debug)]
pub struct SchemaField {
    pub name: String,
    pub kind: FieldKind,
    pub required: bool,
    pub description: String,
}

/// A tool's parameter schema: the fields it accepts, declared at
/// registration.
#[derive(Clone, Debug)]
pub struct ToolSchema {
    pub fields: Vec<SchemaField>,
}

/// One schema field, assembled from its parts.
fn field(name: &str, kind: FieldKind, required: bool, description: &str) -> (r: SchemaField)
    ensures
        r.name@ == name@,
        r.kind == kind,
        r.required == required,
        r.description@ == description@,
{
    SchemaField {
        name: name.to_owned(),
        kind,
        required,
        description: description.to_owned(),
    }
}


/// The envelope carries exactly the given commit outcome.
pub open spec fn wraps_commit(e: ResultEnvelope, r: Result<CommitOutcome, ToolError>) -> bool {
    match r {
        Ok(out) => e.status == EnvelopeStatus::Success && e.payload == Some(
            ToolPayload::Commit { commit_id: out.commit_id, stack_id: out.stack_id },
        ) && e.error is None,
        Err(err) => e.status == EnvelopeStatus::Error && e.error == Some(err) && e.payload
            is None,
    }
}

/// The envelope carries exactly the given branch outcome.
pub open spec fn wraps_branch(e: ResultEnvelope, r: Result<BranchOutcome, ToolError>) -> bool {
    match r {
        Ok(out) => e.status == EnvelopeStatus::Success && e.payload == Some(
            ToolPayload::Branch { stack_id: out.stack_id, branch_name: out.branch_name },
        ) && e.error is None,
        Err(err) => e.status == EnvelopeStatus::Error && e.error == Some(err) && e.payload
            is None,
    }
}

/// The envelope carries exactly the given remap outcome.
pub open spec fn wraps_remap(e: ResultEnvelope, r: Result<Vec<(u64, u64)>, ToolError>) -> bool {
    match r {
        Ok(pairs) => e.status == EnvelopeStatus::Success && e.payload == Some(
            ToolPayload::Remap { pairs },
        ) && e.error is None,
        Err(err) => e.status == EnvelopeStatus::Error && e.error == Some(err) && e.payload
            is None,
    }
}

/// The envelope carries exactly the given details outcome.
pub open spec fn wraps_details(
    e: ResultEnvelope,
    r: Result<Vec<crate::status::FileChange>, ToolError>,
) -> bool {
    match r {
        Ok(changes) => e.status == EnvelopeStatus::Success && e.payload == Some(
            ToolPayload::Details { changes },
        ) && e.error is None,
        Err(err) => e.status == EnvelopeStatus::Error && e.error == Some(err) && e.payload
            is None,
    }
}

/// The envelope reports a parameter error.
pub open spec fn is_parameter_error(e: ResultEnvelope) -> bool {
    e.status == EnvelopeStatus::Error && e.error->0 is Parameter
}

/// Everything the commit tool's invocation guarantees over the raw JSON
/// input: a parameter error exactly when a field is missing or ill-typed,
/// leaving the workspace untouched; otherwise the commit operation ran on the
/// extracted parameters and the envelope wraps its outcome — except on an
/// exhausted identifier counter, where the workspace is left untouched and an
/// engine error is reported.
pub open spec fn commit_call_post(
    w0: Workspace,
    w1: Workspace,
    v: serde_json::Value,
    e: ResultEnvelope,
) -> bool {
    &&& e.action_identifier@ == ("create_commit")@
    &&& envelope_wf(e)
    &&& (is_parameter_error(e) <==> !(str_field_of(v, ("messageTitle")@) is Some && str_field_of(
        v,
        ("messageBody")@,
    ) is Some && str_field_of(v, ("branchName")@) is Some && str_field_of(
        v,
        ("branchDescription")@,
    ) is Some && list_field_of(v, ("files")@) is Some))
    &&& (is_parameter_error(e) ==> w1 == w0)
    &&& (!is_parameter_error(e) ==> commit_invoked(w0, w1, v, e))
}

/// The commit operation ran on the parameters extracted from the JSON input
/// and the envelope wraps its outcome, unless the identifier counter was
/// already exhausted, in which case nothing moved and an engine error is
/// reported.
pub open spec fn commit_invoked_with(
    w0: Workspace,
    w1: Workspace,
    v: serde_json::Value,
    e: ResultEnvelope,
    params: CommitParameters,
    r: Result<CommitOutcome, ToolError>,
) -> bool {
    &&& Some(params.message_title@) == str_field_of(v, ("messageTitle")@)
    &&& Some(params.message_body@) == str_field_of(v, ("messageBody")@)
    &&& Some(params.branch_name@) == str_field_of(v, ("branchName")@)
    &&& Some(params.branch_description@) == str_field_of(v, ("branchDescription")@)
    &&& Some(crate::jsonio::strings_view(params.files@)) == list_field_of(v, ("files")@)
    &&& ((create_commit_post(w0, w1, params, r) && wraps_commit(e, r)) || (w1 == w0 && w0.next_id
        == u64::MAX && e.status == EnvelopeStatus::Error && e.error->0 is Engine))
}

pub open spec fn commit_invoked(
    w0: Workspace,
    w1: Workspace,
    v: serde_json::Value,
    e: ResultEnvelope,
) -> bool {
    exists|params: CommitParameters, r: Result<CommitOutcome, ToolError>|
        #[trigger] commit_invoked_with(w0, w1, v, e, params, r)
}

/// Everything the branch tool's invocation guarantees over the raw JSON
/// input.
pub open spec fn create_branch_call_post(
    w0: Workspace,
    w1: Workspace,
    v: serde_json::Value,
    e: ResultEnvelope,
) -> bool {
    &&& e.action_identifier@ == ("create branch")@
    &&& envelope_wf(e)
    &&& (is_parameter_error(e) <==> !(str_field_of(v, ("branchName")@) is Some && str_field_of(
        v,
        ("branchDescription")@,
    ) is Some))
    &&& (is_parameter_error(e) ==> w1 == w0)
    &&& (!is_parameter_error(e) ==> branch_invoked(w0, w1, v, e))
}

pub open spec fn branch_invoked_with(
    w0: Workspace,
    w1: Workspace,
    v: serde_json::Value,
    e: ResultEnvelope,
    params: CreateBranchParameters,
    r: Result<BranchOutcome, ToolError>,
) -> bool {
    &&& Some(params.branch_name@) == str_field_of(v, ("branchName")@)
    &&& Some(params.branch_description@) == str_field_of(v, ("branchDescription")@)
    &&& create_branch_post(w0, w1, params, r)
    &&& wraps_branch(e, r)
}

pub open spec fn branch_invoked(
    w0: Workspace,
    w1: Workspace,
    v: serde_json::Value,
    e: ResultEnvelope,
) -> bool {
    exists|params: CreateBranchParameters, r: Result<BranchOutcome, ToolError>|
        #[trigger] branch_invoked_with(w0, w1, v, e, params, r)
}

/// Everything the amend tool's invocation guarantees over the raw JSON input.
pub open spec fn amend_call_post(
    w0: Workspace,
    w1: Workspace,
    v: serde_json::Value,
    e: ResultEnvelope,
) -> bool {
    &&& e.action_identifier@ == ("amend_commit")@
    &&& envelope_wf(e)
    &&& (is_parameter_error(e) <==> !(str_field_of(v, ("commitId")@) is Some && str_field_of(
        v,
        ("messageTitle")@,
    ) is Some && str_field_of(v, ("messageBody")@) is Some && str_field_of(
        v,
        ("stackId")@,
    ) is Some && list_field_of(v, ("files")@) is Some))
    &&& (is_parameter_error(e) ==> w1 == w0)
    &&& (!is_parameter_error(e) ==> amend_invoked(w0, w1, v, e))
}

pub open spec fn amend_invoked_with(
    w0: Workspace,
    w1: Workspace,
    v: serde_json::Value,
    e: ResultEnvelope,
    params: AmendParameters,
    r: Result<CommitOutcome, ToolError>,
) -> bool {
    &&& Some(params.commit_id@) == str_field_of(v, ("commitId")@)
    &&& Some(params.message_title@) == str_field_of(v, ("messageTitle")@)
    &&& Some(params.message_body@) == str_field_of(v, ("messageBody")@)
    &&& Some(params.stack_id@) == str_field_of(v, ("stackId")@)
    &&& Some(crate::jsonio::strings_view(params.files@)) == list_field_of(v, ("files")@)
    &&& amend_post(w0, w1, params, r)
    &&& wraps_commit(e, r)
}

pub open spec fn amend_invoked(
    w0: Workspace,
    w1: Workspace,
    v: serde_json::Value,
    e: ResultEnvelope,
) -> bool {
    exists|params: AmendParameters, r: Result<CommitOutcome, ToolError>|
        #[trigger] amend_invoked_with(w0, w1, v, e, params, r)
}

/// The filter the status tool reads out of the JSON input: absent or null
/// means no filtering.
pub open spec fn json_filter_of(v: serde_json::Value) -> Option<Seq<Seq<char>>> {
    match field_of(v, ("filterChanges")@) {
        None => None,
        Some(f) => if null_of(f) {
            None
        } else {
            match strings_of(f) {
                Some(l) => Some(l),
                None => None,
            }
        },
    }
}

/// Everything the status tool's invocation guarantees over the raw JSON
/// input: a parameter error exactly when the filter is present, non-null and
/// no string list; otherwise the reported status is exactly the view of the
/// workspace under that filter, and the workspace is untouched either way.
pub open spec fn status_call_post(w: Workspace, v: serde_json::Value, e: ResultEnvelope) -> bool {
    &&& e.action_identifier@ == ("get_project_status")@
    &&& envelope_wf(e)
    &&& (e.status == EnvelopeStatus::Error <==> (field_of(v, ("filterChanges")@) matches Some(f)
        && !null_of(f) && strings_of(f) is None))
    &&& (e.status == EnvelopeStatus::Error ==> e.error->0 is Parameter)
    &&& (e.status == EnvelopeStatus::Success ==> (e.payload->0 matches ToolPayload::Status {
        status,
    } && status@ == project_status_view(w, json_filter_of(v))))
}

/// Everything the blank-commit tool's invocation guarantees over the raw
/// JSON input.
pub open spec fn blank_call_post(
    w0: Workspace,
    w1: Workspace,
    v: serde_json::Value,
    e: ResultEnvelope,
) -> bool {
    &&& e.action_identifier@ == ("create_blank_commit")@
    &&& envelope_wf(e)
    &&& (is_parameter_error(e) <==> !(str_field_of(v, ("messageTitle")@) is Some && str_field_of(
        v,
        ("messageBody")@,
    ) is Some && str_field_of(v, ("stackId")@) is Some && str_field_of(
        v,
        ("parentId")@,
    ) is Some))
    &&& (is_parameter_error(e) ==> w1 == w0)
    &&& (!is_parameter_error(e) ==> blank_invoked(w0, w1, v, e))
}

pub open spec fn blank_invoked_with(
    w0: Workspace,
    w1: Workspace,
    v: serde_json::Value,
    e: ResultEnvelope,
    params: CreateBlankCommitParameters,
    r: Result<Vec<(u64, u64)>, ToolError>,
) -> bool {
    &&& Some(params.message_title@) == str_field_of(v, ("messageTitle")@)
    &&& Some(params.message_body@) == str_field_of(v, ("messageBody")@)
    &&& Some(params.stack_id@) == str_field_of(v, ("stackId")@)
    &&& Some(params.parent_id@) == str_field_of(v, ("parentId")@)
    &&& blank_post(w0, w1, params, r)
    &&& wraps_remap(e, r)
}

pub open spec fn blank_invoked(
    w0: Workspace,
    w1: Workspace,
    v: serde_json::Value,
    e: ResultEnvelope,
) -> bool {
    exists|params: CreateBlankCommitParameters, r: Result<Vec<(u64, u64)>, ToolError>|
        #[trigger] blank_invoked_with(w0, w1, v, e, params, r)
}

/// Everything the move tool's invocation guarantees over the raw JSON input.
pub open spec fn move_call_post(
    w0: Workspace,
    w1: Workspace,
    v: serde_json::Value,
    e: ResultEnvelope,
) -> bool {
    &&& e.action_identifier@ == ("move_file_changes")@
    &&& envelope_wf(e)
    &&& (is_parameter_error(e) <==> !(str_field_of(v, ("sourceCommitId")@) is Some
        && str_field_of(v, ("sourceStackId")@) is Some && str_field_of(
        v,
        ("destinationCommitId")@,
    ) is Some && str_field_of(v, ("destinationStackId")@) is Some && list_field_of(
        v,
        ("files")@,
    ) is Some))
    &&& (is_parameter_error(e) ==> w1 == w0)
    &&& (!is_parameter_error(e) ==> move_invoked(w0, w1, v, e))
}

pub open spec fn move_invoked_with(
    w0: Workspace,
    w1: Workspace,
    v: serde_json::Value,
    e: ResultEnvelope,
    params: MoveFileChangesParameters,
    r: Result<Vec<(u64, u64)>, ToolError>,
) -> bool {
    &&& Some(params.source_commit_id@) == str_field_of(v, ("sourceCommitId")@)
    &&& Some(params.source_stack_id@) == str_field_of(v, ("sourceStackId")@)
    &&& Some(params.destination_commit_id@) == str_field_of(v, ("destinationCommitId")@)
    &&& Some(params.destination_stack_id@) == str_field_of(v, ("destinationStackId")@)
    &&& Some(crate::jsonio::strings_view(params.files@)) == list_field_of(v, ("files")@)
    &&& move_post(w0, w1, params, r)
    &&& wraps_remap(e, r)
}

pub open spec fn move_invoked(
    w0: Workspace,
    w1: Workspace,
    v: serde_json::Value,
    e: ResultEnvelope,
) -> bool {
    exists|params: MoveFileChangesParameters, r: Result<Vec<(u64, u64)>, ToolError>|
        #[trigger] move_invoked_with(w0, w1, v, e, params, r)
}

/// Everything the details tool's invocation guarantees over the raw JSON
/// input; the workspace is never changed.
pub open spec fn details_call_post(w: Workspace, v: serde_json::Value, e: ResultEnvelope) -> bool {
    &&& e.action_identifier@ == ("commit_details")@
    &&& envelope_wf(e)
    &&& (is_parameter_error(e) <==> str_field_of(v, ("commitId")@) is None)
    &&& (!is_parameter_error(e) ==> details_invoked(w, v, e))
}

pub open spec fn details_invoked_with(
    w: Workspace,
    v: serde_json::Value,
    e: ResultEnvelope,
    params: GetCommitDetailsParameters,
    r: Result<Vec<crate::status::FileChange>, ToolError>,
) -> bool {
    &&& Some(params.commit_id@) == str_field_of(v, ("commitId")@)
    &&& commit_details_post(w, params, r)
    &&& wraps_details(e, r)
}

pub open spec fn details_invoked(w: Workspace, v: serde_json::Value, e: ResultEnvelope) -> bool {
    exists|params: GetCommitDetailsParameters, r: Result<Vec<crate::status::FileChange>, ToolError>|
        #[trigger] details_invoked_with(w, v, e, params, r)
}

/// The commit tool: commit selected file changes to a branch, creating the
/// branch when it does not exist yet.
pub struct Commit;

impl Commit {
    pub fn name(&self) -> (r: String)
        ensures
            r@ == ("commit")@,
    {
        "commit".to_owned()
    }

    pub fn description(&self) -> (r: String)
        ensures
            r@ == ("Commit file changes to a branch in the workspace")@,
    {
        "Commit file changes to a branch in the workspace".to_owned()
    }

    pub fn parameters(&self) -> (r: ToolSchema)
        ensures
            r.fields@.len() == 5,
            r.fields@[0].name@ == ("messageTitle")@ && r.fields@[0].kind == FieldKind::Text
                && r.fields@[0].required,
            r.fields@[1].name@ == ("messageBody")@ && r.fields@[1].kind == FieldKind::Text
                && r.fields@[1].required,
            r.fields@[2].name@ == ("branchName")@ && r.fields@[2].kind == FieldKind::Text
                && r.fields@[2].required,
            r.fields@[3].name@ == ("branchDescription")@ && r.fields@[3].kind == FieldKind::Text
                && r.fields@[3].required,
            r.fields@[4].name@ == ("files")@ && r.fields@[4].kind == FieldKind::TextList
                && r.fields@[4].required,
    {
        let mut fields: Vec<SchemaField> = Vec::new();
        fields.push(field("messageTitle", FieldKind::Text, true, "The commit message title"));
        fields.push(field("messageBody", FieldKind::Text, true, "The commit message body"));
        fields.push(field("branchName", FieldKind::Text, true, "The branch to commit to"));
        fields.push(
            field("branchDescription", FieldKind::Text, true, "The description of the branch"),
        );
        fields.push(field("files", FieldKind::TextList, true, "The file paths to commit"));
        ToolSchema { fields }
    }

    /// Parse the parameters and run the commit operation; a parameter error
    /// is reported without touching the workspace, and otherwise the envelope
    /// wraps the operation's outcome on the extracted parameters.
    #[verifier::spinoff_prover]
    #[verifier::rlimit(60)]
    pub fn call(&self, ws: &mut Workspace, parameters: &serde_json::Value) -> (e: ResultEnvelope)
        requires
            ws_wf(*old(ws)),
        ensures
            ws_wf(*final(ws)),
            commit_call_post(*old(ws), *final(ws), *parameters, e),
    {
        let ghost w0 = *ws;
        let params = match parse_commit_parameters(parameters) {
            Ok(p) => p,
            Err(err) => {
                return wrap_result("create_commit", Err(err));
            },
        };
        let ghost gp = params;
        if ws.next_id == u64::MAX {
            let e = wrap_result(
                "create_commit",
                Err(ToolError::Engine("identifier space exhausted".to_owned())),
            );
            proof {
                let ghost gr: Result<CommitOutcome, ToolError> = Err(
                    vstd::pervasive::arbitrary::<ToolError>(),
                );
                assert(commit_invoked_with(w0, *ws, *parameters, e, gp, gr));
                assert(commit_invoked(w0, *ws, *parameters, e));
                assert(commit_call_post(w0, *ws, *parameters, e));
            }
            return e;
        }
        let r = crate::ops::create_commit(ws, &params);
        let ghost gr = r;
        let e = match r {
            Ok(out) => wrap_result(
                "create_commit",
                Ok(ToolPayload::Commit { commit_id: out.commit_id, stack_id: out.stack_id }),
            ),
            Err(err) => wrap_result("create_commit", Err(err)),
        };
        proof {
            assert(wraps_commit(e, gr));
            assert(commit_invoked_with(w0, *ws, *parameters, e, gp, gr));
            assert(commit_invoked(w0, *ws, *parameters, e));
            assert(commit_call_post(w0, *ws, *parameters, e));
        }
        e
    }
}

/// The branch creation tool: always makes a new stack/branch pair.
pub struct CreateBranch;

impl CreateBranch {
    pub fn name(&self) -> (r: String)
        ensures
            r@ == ("create_branch")@,
    {
        "create_branch".to_owned()
    }

    pub fn description(&self) -> (r: String)
        ensures
            r@ == ("Create a new branch in the workspace")@,
    {
        "Create a new branch in the workspace".to_owned()
    }

    pub fn parameters(&self) -> (r: ToolSchema)
        ensures
            r.fields@.len() == 2,
            r.fields@[0].name@ == ("branchName")@ && r.fields@[0].kind == FieldKind::Text
                && r.fields@[0].required,
            r.fields@[1].name@ == ("branchDescription")@ && r.fields@[1].kind == FieldKind::Text
                && r.fields@[1].required,
    {
        let mut fields: Vec<SchemaField> = Vec::new();
        fields.push(field("branchName", FieldKind::Text, true, "The branch to create"));
        fields.push(
            field("branchDescription", FieldKind::Text, true, "The description of the branch"),
        );
        ToolSchema { fields }
    }

    #[verifier::spinoff_prover]
    pub fn call(&self, ws: &mut Workspace, parameters: &serde_json::Value) -> (e: ResultEnvelope)
        requires
            ws_wf(*old(ws)),
        ensures
            ws_wf(*final(ws)),
            create_branch_call_post(*old(ws), *final(ws), *parameters, e),
    {
        let ghost w0 = *ws;
        let params = match parse_create_branch_parameters(parameters) {
            Ok(p) => p,
            Err(err) => {
                return wrap_result("create branch", Err(err));
            },
        };
        let ghost gp = params;
        let r = crate::ops::create_branch(ws, &params);
        let ghost gr = r;
        let e = match r {
            Ok(out) => wrap_result(
                "create branch",
                Ok(ToolPayload::Branch { stack_id: out.stack_id, branch_name: out.branch_name }),
            ),
            Err(err) => wrap_result("create branch", Err(err)),
        };
        proof {
            assert(wraps_branch(e, gr));
            assert(branch_invoked_with(w0, *ws, *parameters, e, gp, gr));
            assert(branch_invoked(w0, *ws, *parameters, e));
            assert(create_branch_call_post(w0, *ws, *parameters, e));
        }
        e
    }
}

/// The amend tool: replace a commit's message and absorb selected pending
/// changes into its content.
pub struct Amend;

impl Amend {
    pub fn name(&self) -> (r: String)
        ensures
            r@ == ("amend")@,
    {
        "amend".to_owned()
    }

    pub fn description(&self) -> (r: String)
        ensures
            r@ == ("Amend an existing commit on a branch in the workspace")@,
    {
        "Amend an existing commit on a branch in the workspace".to_owned()
    }

    pub fn parameters(&self) -> (r: ToolSchema)
        ensures
            r.fields@.len() == 5,
            r.fields@[0].name@ == ("commitId")@ && r.fields@[0].kind == FieldKind::Text
                && r.fields@[0].required,
            r.fields@[1].name@ == ("messageTitle")@ && r.fields@[1].kind == FieldKind::Text
                && r.fields@[1].required,
            r.fields@[2].name@ == ("messageBody")@ && r.fields@[2].kind == FieldKind::Text
                && r.fields@[2].required,
            r.fields@[3].name@ == ("stackId")@ && r.fields@[3].kind == FieldKind::Text
                && r.fields@[3].required,
            r.fields@[4].name@ == ("files")@ && r.fields@[4].kind == FieldKind::TextList
                && r.fields@[4].required,
    {
        let mut fields: Vec<SchemaField> = Vec::new();
        fields.push(field("commitId", FieldKind::Text, true, "The commit to amend"));
        fields.push(field("messageTitle", FieldKind::Text, true, "The new message title"));
        fields.push(field("messageBody", FieldKind::Text, true, "The new message body"));
        fields.push(field("stackId", FieldKind::Text, true, "The stack holding the commit"));
        fields.push(
            field(
                "files",
                FieldKind::TextList,
                true,
                "The file paths to absorb; empty amends only the message",
            ),
        );
        ToolSchema { fields }
    }

    #[verifier::spinoff_prover]
    pub fn call(&self, ws: &mut Workspace, parameters: &serde_json::Value) -> (e: ResultEnvelope)
        requires
            ws_wf(*old(ws)),
        ensures
            ws_wf(*final(ws)),
            amend_call_post(*old(ws), *final(ws), *parameters, e),
    {
        let ghost w0 = *ws;
        let params = match parse_amend_parameters(parameters) {
            Ok(p) => p,
            Err(err) => {
                return wrap_result("amend_commit", Err(err));
            },
        };
        let ghost gp = params;
        let r = crate::ops::amend_commit(ws, &params);
        let ghost gr = r;
        let e = match r {
            Ok(out) => wrap_result(
                "amend_commit",
                Ok(ToolPayload::Commit { commit_id: out.commit_id, stack_id: out.stack_id }),
            ),
            Err(err) => wrap_result("amend_commit", Err(err)),
        };
        proof {
            assert(wraps_commit(e, gr));
            assert(amend_invoked_with(w0, *ws, *parameters, e, gp, gr));
            assert(amend_invoked(w0, *ws, *parameters, e));
            assert(amend_call_post(w0, *ws, *parameters, e));
        }
        e
    }
}

/// The status tool: the current stacks and the filtered pending file changes.
pub struct GetProjectStatus;

impl GetProjectStatus {
    pub fn name(&self) -> (r: String)
        ensures
            r@ == ("get_project_status")@,
    {
        "get_project_status".to_owned()
    }

    pub fn description(&self) -> (r: String)
        ensures
            r@ == ("Get the current status of the project, including stacks and file changes")@,
    {
        "Get the current status of the project, including stacks and file changes".to_owned()
    }

    pub fn parameters(&self) -> (r: ToolSchema)
        ensures
            r.fields@.len() == 1,
            r.fields@[0].name@ == ("filterChanges")@ && r.fields@[0].kind
                == FieldKind::OptionalTextList && !r.fields@[0].required,
    {
        let mut fields: Vec<SchemaField> = Vec::new();
        fields.push(
            field(
                "filterChanges",
                FieldKind::OptionalTextList,
                false,
                "Optional list of file paths to limit the reported changes to",
            ),
        );
        ToolSchema { fields }
    }

    /// A read-only call: the workspace is never changed.
    #[verifier::spinoff_prover]
    pub fn call(&self, ws: &mut Workspace, parameters: &serde_json::Value) -> (e: ResultEnvelope)
        ensures
            *final(ws) == *old(ws),
            status_call_post(*old(ws), *parameters, e),
    {
        let params = match parse_get_project_status_parameters(parameters) {
            Ok(p) => p,
            Err(err) => {
                return wrap_result("get_project_status", Err(err));
            },
        };
        let ghost gp = params;
        let status = crate::status::get_project_status(ws, &params);
        let e = wrap_result("get_project_status", Ok(ToolPayload::Status { status }));
        proof {
            assert(crate::status::filter_view(gp.filter_changes) == json_filter_of(*parameters));
            assert(status_call_post(*ws, *parameters, e));
        }
        e
    }
}

/// The blank commit tool: insert an empty commit above a given commit.
pub struct CreateBlankCommit;

impl CreateBlankCommit {
    pub fn name(&self) -> (r: String)
        ensures
            r@ == ("create_blank_commit")@,
    {
        "create_blank_commit".to_owned()
    }

    pub fn description(&self) -> (r: String)
        ensures
            r@ == ("Create a blank commit on a specific stack in the workspace")@,
    {
        "Create a blank commit on a specific stack in the workspace".to_owned()
    }

    pub fn parameters(&self) -> (r: ToolSchema)
        ensures
            r.fields@.len() == 4,
            r.fields@[0].name@ == ("messageTitle")@ && r.fields@[0].kind == FieldKind::Text
                && r.fields@[0].required,
            r.fields@[1].name@ == ("messageBody")@ && r.fields@[1].kind == FieldKind::Text
                && r.fields@[1].required,
            r.fields@[2].name@ == ("stackId")@ && r.fields@[2].kind == FieldKind::Text
                && r.fields@[2].required,
            r.fields@[3].name@ == ("parentId")@ && r.fields@[3].kind == FieldKind::Text
                && r.fields@[3].required,
    {
        let mut fields: Vec<SchemaField> = Vec::new();
        fields.push(field("messageTitle", FieldKind::Text, true, "The commit message title"));
        fields.push(field("messageBody", FieldKind::Text, true, "The commit message body"));
        fields.push(field("stackId", FieldKind::Text, true, "The stack to insert on"));
        fields.push(
            field("parentId", FieldKind::Text, true, "The commit to insert the blank commit above"),
        );
        ToolSchema { fields }
    }

    #[verifier::spinoff_prover]
    pub fn call(&self, ws: &mut Workspace, parameters: &serde_json::Value) -> (e: ResultEnvelope)
        requires
            ws_wf(*old(ws)),
        ensures
            ws_wf(*final(ws)),
            blank_call_post(*old(ws), *final(ws), *parameters, e),
    {
        let ghost w0 = *ws;
        let params = match parse_create_blank_commit_parameters(parameters) {
            Ok(p) => p,
            Err(err) => {
                return wrap_result("create_blank_commit", Err(err));
            },
        };
        let ghost gp = params;
        let r = crate::ops::create_blank_commit(ws, &params);
        let ghost gr = r;
        let e = match r {
            Ok(pairs) => wrap_result("create_blank_commit", Ok(ToolPayload::Remap { pairs })),
            Err(err) => wrap_result("create_blank_commit", Err(err)),
        };
        proof {
            assert(wraps_remap(e, gr));
            assert(blank_invoked_with(w0, *ws, *parameters, e, gp, gr));
            assert(blank_invoked(w0, *ws, *parameters, e));
            assert(blank_call_post(w0, *ws, *parameters, e));
        }
        e
    }
}

/// The move tool: move file-level changes between two commits.
pub struct MoveFileChanges;

impl MoveFileChanges {
    pub fn name(&self) -> (r: String)
        ensures
            r@ == ("move_file_changes")@,
    {
        "move_file_changes".to_owned()
    }

    pub fn description(&self) -> (r: String)
        ensures
            r@ == ("Move file changes from one commit to another in the workspace")@,
    {
        "Move file changes from one commit to another in the workspace".to_owned()
    }

    pub fn parameters(&self) -> (r: ToolSchema)
        ensures
            r.fields@.len() == 5,
            r.fields@[0].name@ == ("sourceCommitId")@ && r.fields@[0].kind == FieldKind::Text
                && r.fields@[0].required,
            r.fields@[1].name@ == ("sourceStackId")@ && r.fields@[1].kind == FieldKind::Text
                && r.fields@[1].required,
            r.fields@[2].name@ == ("destinationCommitId")@ && r.fields@[2].kind == FieldKind::Text
                && r.fields@[2].required,
            r.fields@[3].name@ == ("destinationStackId")@ && r.fields@[3].kind == FieldKind::Text
                && r.fields@[3].required,
            r.fields@[4].name@ == ("files")@ && r.fields@[4].kind == FieldKind::TextList
                && r.fields@[4].required,
    {
        let mut fields: Vec<SchemaField> = Vec::new();
        fields.push(field("sourceCommitId", FieldKind::Text, true, "The commit to move from"));
        fields.push(field("sourceStackId", FieldKind::Text, true, "The stack of the source"));
        fields.push(field("destinationCommitId", FieldKind::Text, true, "The commit to move to"));
        fields.push(
            field("destinationStackId", FieldKind::Text, true, "The stack of the destination"),
        );
        fields.push(field("files", FieldKind::TextList, true, "The file paths to move"));
        ToolSchema { fields }
    }

    #[verifier::spinoff_prover]
    pub fn call(&self, ws: &mut Workspace, parameters: &serde_json::Value) -> (e: ResultEnvelope)
        requires
            ws_wf(*old(ws)),
        ensures
            ws_wf(*final(ws)),
            move_call_post(*old(ws), *final(ws), *parameters, e),
    {
        let ghost w0 = *ws;
        let params = match parse_move_file_changes_parameters(parameters) {
            Ok(p) => p,
            Err(err) => {
                return wrap_result("move_file_changes", Err(err));
            },
        };
        let ghost gp = params;
        let r = crate::ops::move_file_changes(ws, &params);
        let ghost gr = r;
        let e = match r {
            Ok(pairs) => wrap_result("move_file_changes", Ok(ToolPayload::Remap { pairs })),
            Err(err) => wrap_result("move_file_changes", Err(err)),
        };
        proof {
            assert(wraps_remap(e, gr));
            assert(move_invoked_with(w0, *ws, *parameters, e, gp, gr));
            assert(move_invoked(w0, *ws, *parameters, e));
            assert(move_call_post(w0, *ws, *parameters, e));
        }
        e
    }
}

/// The commit details tool: the file changes of one historical commit.
pub struct GetCommitDetails;

impl GetCommitDetails {
    pub fn name(&self) -> (r: String)
        ensures
            r@ == ("get_commit_details")@,
    {
        "get_commit_details".to_owned()
    }

    pub fn description(&self) -> (r: String)
        ensures
            r@ == ("Get details of a specific commit in the workspace")@,
    {
        "Get details of a specific commit in the workspace".to_owned()
    }

    pub fn parameters(&self) -> (r: ToolSchema)
        ensures
            r.fields@.len() == 1,
            r.fields@[0].name@ == ("commitId")@ && r.fields@[0].kind == FieldKind::Text
                && r.fields@[0].required,
    {
        let mut fields: Vec<SchemaField> = Vec::new();
        fields.push(field("commitId", FieldKind::Text, true, "The commit to describe"));
        ToolSchema { fields }
    }

    /// A read-only call: the workspace is never changed.
    #[verifier::spinoff_prover]
    pub fn call(&self, ws: &mut Workspace, parameters: &serde_json::Value) -> (e: ResultEnvelope)
        ensures
            *final(ws) == *old(ws),
            details_call_post(*old(ws), *parameters, e),
    {
        let params = match parse_get_commit_details_parameters(parameters) {
            Ok(p) => p,
            Err(err) => {
                return wrap_result("commit_details", Err(err));
            },
        };
        let ghost gp = params;
        let r = crate::status::commit_details(ws, &params);
        let ghost gr = r;
        let e = match r {
            Ok(changes) => wrap_result("commit_details", Ok(ToolPayload::Details { changes })),
            Err(err) => wrap_result("commit_details", Err(err)),
        };
        proof {
            assert(wraps_details(e, gr));
            assert(details_invoked_with(*ws, *parameters, e, gp, gr));
            assert(details_invoked(*ws, *parameters, e));
            assert(details_call_post(*ws, *parameters, e));
        }
        e
    }
}

/// What a dispatched call guarantees, by tool name: the named tool's whole
/// contract over the raw JSON input holds of the envelope, and the read-only
/// tools leave the workspace untouched.
pub open spec fn dispatched(
    name: Seq<char>,
    w0: Workspace,
    w1: Workspace,
    v: serde_json::Value,
    e: ResultEnvelope,
) -> bool {
    &&& (name == kind_name(ToolKind::Commit) ==> commit_call_post(w0, w1, v, e))
    &&& (name == kind_name(ToolKind::CreateBranch) ==> create_branch_call_post(w0, w1, v, e))
    &&& (name == kind_name(ToolKind::Amend) ==> amend_call_post(w0, w1, v, e))
    &&& (name == kind_name(ToolKind::GetProjectStatus) ==> w1 == w0 && status_call_post(
        w0,
        v,
        e,
    ))
    &&& (name == kind_name(ToolKind::CreateBlankCommit) ==> blank_call_post(w0, w1, v, e))
    &&& (name == kind_name(ToolKind::MoveFileChanges) ==> move_call_post(w0, w1, v, e))
    &&& (name == kind_name(ToolKind::GetCommitDetails) ==> w1 == w0 && details_call_post(
        w0,
        v,
        e,
    ))
}

/// One registered tool, as a closed set of variants.
#[derive(Clone, Copy, PartialEq, Eq, Structural, Debug)]
pub enum ToolKind {
    Commit,
    CreateBranch,
    Amend,
    GetProjectStatus,
    CreateBlankCommit,
    MoveFileChanges,
    GetCommitDetails,
}

/// The stable name each tool is registered and dispatched under.
pub open spec fn kind_name(k: ToolKind) -> Seq<char> {
    match k {
        ToolKind::Commit => ("commit")@,
        ToolKind::CreateBranch => ("create_branch")@,
        ToolKind::Amend => ("amend")@,
        ToolKind::GetProjectStatus => ("get_project_status")@,
        ToolKind::CreateBlankCommit => ("create_blank_commit")@,
        ToolKind::MoveFileChanges => ("move_file_changes")@,
        ToolKind::GetCommitDetails => ("get_commit_details")@,
    }
}

/// The name of a registered tool.
pub fn tool_kind_name(k: ToolKind) -> (r: String)
    ensures
        r@ == kind_name(k),
{
    match k {
        ToolKind::Commit => "commit".to_owned(),
        ToolKind::CreateBranch => "create_branch".to_owned(),
        ToolKind::Amend => "amend".to_owned(),
        ToolKind::GetProjectStatus => "get_project_status".to_owned(),
        ToolKind::CreateBlankCommit => "create_blank_commit".to_owned(),
        ToolKind::MoveFileChanges => "move_file_changes".to_owned(),
        ToolKind::GetCommitDetails => "get_commit_details".to_owned(),
    }
}

/// Whether some registered tool carries the given name.
pub open spec fn has_tool(tools: Seq<ToolKind>, name: Seq<char>) -> bool {
    exists|i: int| 0 <= i < tools.len() && kind_name(#[trigger] tools[i]) == name
}

/// An ordered set of registered tools, optionally tagged with a correlation
/// identifier used only as notification context.
pub struct Toolset {
    pub tools: Vec<ToolKind>,
    pub message_id: Option<String>,
}

impl Toolset {
    /// An empty toolset.
    pub fn new(message_id: Option<String>) -> (r: Toolset)
        ensures
            r.tools@.len() == 0,
            r.message_id == message_id,
    {
        Toolset { tools: Vec::new(), message_id }
    }

    /// Register a tool. Two tools never share a name, so registering the same
    /// kind twice is a caller error, ruled out here.
    pub fn register_tool(&mut self, kind: ToolKind)
        requires
            !old(self).tools@.contains(kind),
        ensures
            final(self).tools@ == old(self).tools@.push(kind),
            final(self).message_id == old(self).message_id,
    {
        self.tools.push(kind);
    }

    /// Dispatch a call by tool name: an unknown name is reported without any
    /// side effect; a known name hands the parameters to that tool, whose
    /// whole guarantee over the raw JSON input then holds of the envelope.
    #[verifier::spinoff_prover]
    #[verifier::rlimit(100)]
    pub fn dispatch(
        &self,
        ws: &mut Workspace,
        name: &str,
        parameters: &serde_json::Value,
    ) -> (e: ResultEnvelope)
        requires
            ws_wf(*old(ws)),
        ensures
            ws_wf(*final(ws)),
            envelope_wf(e),
            !has_tool(self.tools@, name@) ==> *final(ws) == *old(ws) && e.status
                == EnvelopeStatus::Error && e.error->0 is Reference,
            e.status == EnvelopeStatus::Error && e.error->0 is Parameter ==> *final(ws) == *old(
                ws,
            ),
            has_tool(self.tools@, name@) ==> dispatched(name@, *old(ws), *final(ws), *parameters, e),
    {
        let mut i: usize = 0;
        while i < self.tools.len()
            invariant
                0 <= i <= self.tools@.len(),
                ws_wf(*ws),
                *ws == *old(ws),
                forall|k: int| 0 <= k < i ==> kind_name(#[trigger] self.tools@[k]) != name@,
            decreases self.tools@.len() - i,
        {
            let k = self.tools[i];
            if str_eq(tool_kind_name(k).as_str(), name) {
                proof {
                    reveal_strlit("commit");
                    reveal_strlit("create_branch");
                    reveal_strlit("amend");
                    reveal_strlit("get_project_status");
                    reveal_strlit("create_blank_commit");
                    reveal_strlit("move_file_changes");
                    reveal_strlit("get_commit_details");
                    assert(("commit")@.len() == 6);
                    assert(("create_branch")@.len() == 13);
                    assert(("amend")@.len() == 5);
                    assert(("get_project_status")@.len() == 18);
                    assert(("create_blank_commit")@.len() == 19);
                    assert(("move_file_changes")@.len() == 17);
                    assert(("get_commit_details")@.len() == 18);
                    assert(("get_project_status")@[4] != ("get_commit_details")@[4]);
                }
                return match k {
                    ToolKind::Commit => {
                        let e = Commit.call(ws, parameters);
                        proof {
                            assert(commit_call_post(*old(ws), *ws, *parameters, e));
                            assert(dispatched(name@, *old(ws), *ws, *parameters, e));
                        }
                        e
                    },
                    ToolKind::CreateBranch => {
                        let e = CreateBranch.call(ws, parameters);
                        proof {
                            assert(create_branch_call_post(*old(ws), *ws, *parameters, e));
                            assert(dispatched(name@, *old(ws), *ws, *parameters, e));
                        }
                        e
                    },
                    ToolKind::Amend => {
                        let e = Amend.call(ws, parameters);
                        proof {
                            assert(amend_call_post(*old(ws), *ws, *parameters, e));
                            assert(dispatched(name@, *old(ws), *ws, *parameters, e));
                        }
                        e
                    },
                    ToolKind::GetProjectStatus => {
                        let e = GetProjectStatus.call(ws, parameters);
                        proof {
                            assert(status_call_post(*old(ws), *parameters, e));
                            assert(dispatched(name@, *old(ws), *ws, *parameters, e));
                        }
                        e
                    },
                    ToolKind::CreateBlankCommit => {
                        let e = CreateBlankCommit.call(ws, parameters);
                        proof {
                            assert(blank_call_post(*old(ws), *ws, *parameters, e));
                            assert(dispatched(name@, *old(ws), *ws, *parameters, e));
                        }
                        e
                    },
                    ToolKind::MoveFileChanges => {
                        let e = MoveFileChanges.call(ws, parameters);
                        proof {
                            assert(move_call_post(*old(ws), *ws, *parameters, e));
                            assert(dispatched(name@, *old(ws), *ws, *parameters, e));
                        }
                        e
                    },
                    ToolKind::GetCommitDetails => {
                        let e = GetCommitDetails.call(ws, parameters);
                        proof {
                            assert(details_call_post(*old(ws), *parameters, e));
                            assert(dispatched(name@, *old(ws), *ws, *parameters, e));
                        }
                        e
                    },
                };
            }
            i = i + 1;
        }
        wrap_result("dispatch", Err(ToolError::Reference("unknown tool".to_owned())))
    }
}

/// The toolset for any kind of workspace operation, tagged with the message
/// identifier used as notification context.
pub fn workspace_toolset(message_id: String) -> (r: Toolset)
    ensures
        r.tools@ =~= seq![
            ToolKind::Commit,
            ToolKind::CreateBranch,
            ToolKind::Amend,
            ToolKind::GetProjectStatus,
            ToolKind::CreateBlankCommit,
            ToolKind::MoveFileChanges,
            ToolKind::GetCommitDetails,
        ],
        r.message_id == Some(message_id),
{
    let mut toolset = Toolset::new(Some(message_id));
    toolset.register_tool(ToolKind::Commit);
    toolset.register_tool(ToolKind::CreateBranch);
    toolset.register_tool(ToolKind::Amend);
    toolset.register_tool(ToolKind::GetProjectStatus);
    toolset.register_tool(ToolKind::CreateBlankCommit);
    toolset.register_tool(ToolKind::MoveFileChanges);
    toolset.register_tool(ToolKind::GetCommitDetails);
    toolset
}

/// The toolset for committing and branch creation alone.
pub fn commit_toolset() -> (r: Toolset)
    ensures
        r.tools@ =~= seq![ToolKind::Commit, ToolKind::CreateBranch],
        r.message_id is None,
{
    let mut toolset = Toolset::new(None);
    toolset.register_tool(ToolKind::Commit);
    toolset.register_tool(ToolKind::CreateBranch);
    toolset
}

/// The toolset for amend operations alone.
pub fn amend_toolset() -> (r: Toolset)
    ensures
        r.tools@ =~= seq![ToolKind::Amend, ToolKind::GetProjectStatus],
        r.message_id is None,
{
    let mut toolset = Toolset::new(None);
    toolset.register_tool(ToolKind::Amend);
    toolset.register_tool(ToolKind::GetProjectStatus);
    toolset
}

} // verus!
