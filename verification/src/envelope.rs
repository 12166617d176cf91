//! Operation outcomes: the error taxonomy and the result envelope that every
//! tool invocation is wrapped in.

use vstd::prelude::*;
use crate::status::ProjectStatus;
use crate::status::FileChange;

verus! {

/// Why an operation failed.
///
/// `Parameter`: malformed or missing input fields, detected before any side
/// effect. `Reference`: an identifier or name does not resolve to an existing
/// stack, branch or commit. `Engine`: the commit-construction or restructuring
/// step rejected the request. `Permission`: the write-access guard was
/// unavailable.
#[derive(Clone, Debug, PartialEq)]
pub enum ToolError {
    Parameter(String),
    Reference(String),
    Engine(String),
    Permission(String),
}

/// A successful tool invocation's payload, one variant per tool family.
#[derive(Clone, Debug, PartialEq)]
pub enum ToolPayload {
    /// A created or amended commit: its identifier and the stack it sits on.
    Commit { commit_id: u64, stack_id: u64 },
    /// A created stack/branch reference.
    Branch { stack_id: u64, branch_name: String },
    /// Commit identifier remapping from a restructuring operation.
    Remap { pairs: Vec<(u64, u64)> },
    /// The aggregated project status.
    Status { status: ProjectStatus },
    /// File changes of a single historical commit.
    Details { changes: Vec<FileChange> },
}

/// Whether the envelope reports success.
#[derive(Clone, Copy, PartialEq, Eq, Structural, Debug)]
pub enum EnvelopeStatus {
    Success,
    Error,
}

/// One JSON-shaped outcome for every operation: a status, the identifier of
/// the action that produced it, and either a payload or an error detail.
#[derive(Clone, Debug, PartialEq)]
pub struct ResultEnvelope {
    pub status: EnvelopeStatus,
    pub action_identifier: String,
    pub payload: Option<ToolPayload>,
    pub error: Option<ToolError>,
}

/// An envelope is well-shaped when it carries a payload exactly on success
/// and an error detail exactly on failure.
pub open spec fn envelope_wf(e: ResultEnvelope) -> bool {
    &&& (e.status == EnvelopeStatus::Success <==> e.payload is Some)
    &&& (e.status == EnvelopeStatus::Error <==> e.error is Some)
}

/// Wrap an operation result into the single envelope shape.
pub fn wrap_result(action_identifier: &str, r: Result<ToolPayload, ToolError>) -> (e:
    ResultEnvelope)
    ensures
        envelope_wf(e),
        e.action_identifier@ == action_identifier@,
        r is Ok ==> e.status == EnvelopeStatus::Success && e.payload == Some(r->Ok_0),
        r is Err ==> e.status == EnvelopeStatus::Error && e.error == Some(r->Err_0),
{
    match r {
        Ok(payload) => ResultEnvelope {
            status: EnvelopeStatus::Success,
            action_identifier: action_identifier.to_owned(),
            payload: Some(payload),
            error: None,
        },
        Err(err) => ResultEnvelope {
            status: EnvelopeStatus::Error,
            action_identifier: action_identifier.to_owned(),
            payload: None,
            error: Some(err),
        },
    }
}

} // verus!
