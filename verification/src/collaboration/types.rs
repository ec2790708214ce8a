use vstd::prelude::*;

use super::keyed::{keys_unique, Keyed};
use crate::assignment_comm::{
    AssignmentCommunicationPacket, AssignmentModeSpec, ReportConfidence, ReportDisposition,
    ReportParseResult, WorkerReportEnvelope, WorkerReportValidation,
};
use crate::model::{copy_opt_string, copy_strings, WorkUnitStatus, WorkstreamStatus};

verus! {

/// A line of work with an objective.
#[derive(Debug)]
pub struct Workstream {
    pub id: String,
    pub title: String,
    pub objective: String,
    pub status: WorkstreamStatus,
    pub priority: String,
    pub created_at: i64,
    pub updated_at: i64,
}

/// A bounded task within a workstream.
#[derive(Debug)]
pub struct WorkUnit {
    pub id: String,
    pub workstream_id: String,
    pub title: String,
    pub task_statement: String,
    pub status: WorkUnitStatus,
    pub dependencies: Vec<String>,
    pub latest_report_id: Option<String>,
    pub current_assignment_id: Option<String>,
    pub created_at: i64,
    pub updated_at: i64,
}

/// Whether a worker is taken.
#[derive(Debug, Clone, Copy, PartialEq, Eq, Structural)]
pub enum WorkerStatus {
    Idle,
    Busy,
}

/// Someone, or some agent, that carries out assignments.
#[derive(Debug)]
pub struct Worker {
    pub id: String,
    pub kind: String,
    pub status: WorkerStatus,
    pub current_assignment_id: Option<String>,
}

/// What a worker session's backing thread is doing.
#[derive(Debug, Clone, Copy, PartialEq, Eq, Structural)]
pub enum WorkerSessionRuntimeStatus {
    Idle,
    Running,
    Completed,
    Interrupted,
    Failed,
    Lost,
}

/// Whether an operator can attach to a session's thread.
#[derive(Debug, Clone, Copy, PartialEq, Eq, Structural)]
pub enum WorkerSessionAttachability {
    Attachable,
    NotAttachable,
    Unknown,
}

/// A worker's runtime context: the thread its assignments run in.
#[derive(Debug)]
pub struct WorkerSession {
    pub id: String,
    pub worker_id: String,
    pub backend_type: String,
    pub thread_id: Option<String>,
    pub active_turn_id: Option<String>,
    pub runtime_status: WorkerSessionRuntimeStatus,
    pub attachability: WorkerSessionAttachability,
    pub updated_at: i64,
}

/// Where an assignment stands.
#[derive(Debug, Clone, Copy, PartialEq, Eq, Structural)]
pub enum AssignmentStatus {
    Created,
    Running,
    AwaitingDecision,
    Interrupted,
    Failed,
    Lost,
    Closed,
}

/// What the packet of an assignment is built from.
#[derive(Debug)]
pub struct AssignmentCommunicationSeed {
    pub source_decision_id: Option<String>,
    pub source_report_id: Option<String>,
    pub source_proposal_id: Option<String>,
    pub predecessor_assignment_id: Option<String>,
    pub objective: String,
    pub instructions: Vec<String>,
    pub acceptance_criteria: Vec<String>,
    pub stop_conditions: Vec<String>,
    pub required_context_refs: Vec<String>,
    pub expected_report_fields: Vec<String>,
    pub boundedness_note: Option<String>,
    pub mode_spec: AssignmentModeSpec,
}

/// One attempt of a worker at a work unit.
#[derive(Debug)]
pub struct Assignment {
    pub id: String,
    pub work_unit_id: String,
    pub worker_id: String,
    pub worker_session_id: String,
    pub instructions: String,
    pub communication_seed: Option<AssignmentCommunicationSeed>,
    pub status: AssignmentStatus,
    pub attempt_number: u32,
    pub created_at: i64,
    pub updated_at: i64,
}

/// What a worker reported on an assignment.
#[derive(Debug)]
pub struct Report {
    pub id: String,
    pub work_unit_id: String,
    pub assignment_id: String,
    pub worker_id: String,
    pub disposition: ReportDisposition,
    pub summary: String,
    pub findings: Vec<String>,
    pub blockers: Vec<String>,
    pub questions: Vec<String>,
    pub recommended_next_actions: Vec<String>,
    pub confidence: ReportConfidence,
    pub raw_output: String,
    pub parse_result: ReportParseResult,
    pub needs_supervisor_review: bool,
    pub created_at: i64,
}

/// What the supervisor decided after a report.
#[derive(Debug, Clone, Copy, PartialEq, Eq, Structural)]
pub enum DecisionType {
    Accept,
    Continue,
    Redirect,
    MarkComplete,
    EscalateToHuman,
}

/// How a change to a workstream or work unit is announced.
#[derive(Debug, Clone, Copy, PartialEq, Eq, Structural)]
pub enum CollaborationLifecycleAction {
    Created,
    Updated,
    Completed,
    Escalated,
}

/// A supervisor decision on a work unit.
#[derive(Debug)]
pub struct Decision {
    pub id: String,
    pub work_unit_id: String,
    pub report_id: Option<String>,
    pub decision_type: DecisionType,
    pub rationale: String,
    pub created_at: i64,
}

/// Where a supervisor proposal stands.
#[derive(Debug, Clone, Copy, PartialEq, Eq, Structural)]
pub enum SupervisorProposalStatus {
    Open,
    Approved,
    Rejected,
    Superseded,
    Stale,
    GenerationFailed,
}

/// The step at which generating a proposal failed.
#[derive(Debug, Clone, Copy, PartialEq, Eq, Structural)]
pub enum SupervisorProposalFailureStage {
    Backend,
    ResponseMalformed,
    ProposalMalformed,
    ProposalValidation,
}

/// Why generating a proposal failed.
#[derive(Debug)]
pub struct SupervisorProposalFailure {
    pub stage: SupervisorProposalFailureStage,
    pub message: String,
}

/// A proposal for the next decision on a work unit, with its review. Of the proposal's payload
/// the record keeps the decision types: the one the reasoner proposed, and the one approved.
#[derive(Debug)]
pub struct SupervisorProposalRecord {
    pub id: String,
    pub workstream_id: String,
    pub primary_work_unit_id: String,
    pub source_report_id: String,
    pub status: SupervisorProposalStatus,
    pub created_at: i64,
    pub reasoner_model: String,
    pub proposed_decision_type: Option<DecisionType>,
    pub approved_decision_type: Option<DecisionType>,
    pub has_approval_edits: bool,
    pub generation_failure: Option<SupervisorProposalFailure>,
    pub reviewed_at: Option<i64>,
    pub reviewed_by: Option<String>,
    pub review_note: Option<String>,
    pub approved_decision_id: Option<String>,
    pub approved_assignment_id: Option<String>,
}

/// The packet an assignment was handed and what came back.
#[derive(Debug)]
pub struct AssignmentCommunicationRecord {
    pub assignment_id: String,
    pub packet: AssignmentCommunicationPacket,
    pub response_envelope: Option<WorkerReportEnvelope>,
    pub validation: Option<WorkerReportValidation>,
    pub raw_output_hash: Option<String>,
}

/// Everything the supervisor keeps about the collaboration.
#[derive(Debug)]
pub struct CollaborationState {
    pub workstreams: Vec<Workstream>,
    pub work_units: Vec<WorkUnit>,
    pub workers: Vec<Worker>,
    pub worker_sessions: Vec<WorkerSession>,
    pub assignments: Vec<Assignment>,
    pub reports: Vec<Report>,
    pub decisions: Vec<Decision>,
    pub supervisor_proposals: Vec<SupervisorProposalRecord>,
    pub assignment_communications: Vec<AssignmentCommunicationRecord>,
}

impl Keyed for Workstream {
    open spec fn key(&self) -> Seq<char> { self.id@ }
    fn key_str(&self) -> (r: &str) { self.id.as_str() }
}

impl Keyed for WorkUnit {
    open spec fn key(&self) -> Seq<char> { self.id@ }
    fn key_str(&self) -> (r: &str) { self.id.as_str() }
}

impl Keyed for Worker {
    open spec fn key(&self) -> Seq<char> { self.id@ }
    fn key_str(&self) -> (r: &str) { self.id.as_str() }
}

impl Keyed for WorkerSession {
    open spec fn key(&self) -> Seq<char> { self.id@ }
    fn key_str(&self) -> (r: &str) { self.id.as_str() }
}

impl Keyed for Assignment {
    open spec fn key(&self) -> Seq<char> { self.id@ }
    fn key_str(&self) -> (r: &str) { self.id.as_str() }
}

impl Keyed for Report {
    open spec fn key(&self) -> Seq<char> { self.id@ }
    fn key_str(&self) -> (r: &str) { self.id.as_str() }
}

impl Keyed for Decision {
    open spec fn key(&self) -> Seq<char> { self.id@ }
    fn key_str(&self) -> (r: &str) { self.id.as_str() }
}

impl Keyed for SupervisorProposalRecord {
    open spec fn key(&self) -> Seq<char> { self.id@ }
    fn key_str(&self) -> (r: &str) { self.id.as_str() }
}

impl Keyed for AssignmentCommunicationRecord {
    open spec fn key(&self) -> Seq<char> { self.assignment_id@ }
    fn key_str(&self) -> (r: &str) { self.assignment_id.as_str() }
}

impl CollaborationState {
    /// Every table is a map: no two records share a key.
    pub open spec fn wf(&self) -> bool {
        &&& keys_unique(self.workstreams@)
        &&& keys_unique(self.work_units@)
        &&& keys_unique(self.workers@)
        &&& keys_unique(self.worker_sessions@)
        &&& keys_unique(self.assignments@)
        &&& keys_unique(self.reports@)
        &&& keys_unique(self.decisions@)
        &&& keys_unique(self.supervisor_proposals@)
        &&& keys_unique(self.assignment_communications@)
    }

    /// An empty collaboration.
    pub fn new() -> (r: Self)
        ensures
            r.wf(),
            r.workstreams@.len() == 0,
            r.work_units@.len() == 0,
            r.workers@.len() == 0,
            r.worker_sessions@.len() == 0,
            r.assignments@.len() == 0,
            r.reports@.len() == 0,
            r.decisions@.len() == 0,
            r.supervisor_proposals@.len() == 0,
            r.assignment_communications@.len() == 0,
    {
        CollaborationState {
            workstreams: Vec::new(),
            work_units: Vec::new(),
            workers: Vec::new(),
            worker_sessions: Vec::new(),
            assignments: Vec::new(),
            reports: Vec::new(),
            decisions: Vec::new(),
            supervisor_proposals: Vec::new(),
            assignment_communications: Vec::new(),
        }
    }
}

impl Workstream {
    pub fn copy(&self) -> (r: Self)
        ensures
            r == *self,
    {
        Workstream {
            id: self.id.clone(),
            title: self.title.clone(),
            objective: self.objective.clone(),
            status: self.status,
            priority: self.priority.clone(),
            created_at: self.created_at,
            updated_at: self.updated_at,
        }
    }
}

/// Whether two work units hold the same contents.
pub open spec fn same_work_unit(a: WorkUnit, b: WorkUnit) -> bool {
    &&& a.id == b.id
    &&& a.workstream_id == b.workstream_id
    &&& a.title == b.title
    &&& a.task_statement == b.task_statement
    &&& a.status == b.status
    &&& a.dependencies@ == b.dependencies@
    &&& a.latest_report_id == b.latest_report_id
    &&& a.current_assignment_id == b.current_assignment_id
    &&& a.created_at == b.created_at
    &&& a.updated_at == b.updated_at
}

impl WorkUnit {
    pub fn copy(&self) -> (r: Self)
        ensures
            same_work_unit(r, *self),
    {
        WorkUnit {
            id: self.id.clone(),
            workstream_id: self.workstream_id.clone(),
            title: self.title.clone(),
            task_statement: self.task_statement.clone(),
            status: self.status,
            dependencies: copy_strings(&self.dependencies),
            latest_report_id: copy_opt_string(&self.latest_report_id),
            current_assignment_id: copy_opt_string(&self.current_assignment_id),
            created_at: self.created_at,
            updated_at: self.updated_at,
        }
    }
}

impl Worker {
    pub fn copy(&self) -> (r: Self)
        ensures
            r == *self,
    {
        Worker {
            id: self.id.clone(),
            kind: self.kind.clone(),
            status: self.status,
            current_assignment_id: copy_opt_string(&self.current_assignment_id),
        }
    }
}

impl WorkerSession {
    pub fn copy(&self) -> (r: Self)
        ensures
            r == *self,
    {
        WorkerSession {
            id: self.id.clone(),
            worker_id: self.worker_id.clone(),
            backend_type: self.backend_type.clone(),
            thread_id: copy_opt_string(&self.thread_id),
            active_turn_id: copy_opt_string(&self.active_turn_id),
            runtime_status: self.runtime_status,
            attachability: self.attachability,
            updated_at: self.updated_at,
        }
    }
}

impl SupervisorProposalRecord {
    pub fn copy(&self) -> (r: Self)
        ensures
            r == *self,
    {
        SupervisorProposalRecord {
            id: self.id.clone(),
            workstream_id: self.workstream_id.clone(),
            primary_work_unit_id: self.primary_work_unit_id.clone(),
            source_report_id: self.source_report_id.clone(),
            status: self.status,
            created_at: self.created_at,
            reasoner_model: self.reasoner_model.clone(),
            proposed_decision_type: self.proposed_decision_type,
            approved_decision_type: self.approved_decision_type,
            has_approval_edits: self.has_approval_edits,
            generation_failure: match &self.generation_failure {
                Some(f) => Some(SupervisorProposalFailure { stage: f.stage, message: f.message.clone() }),
                None => None,
            },
            reviewed_at: self.reviewed_at,
            reviewed_by: copy_opt_string(&self.reviewed_by),
            review_note: copy_opt_string(&self.review_note),
            approved_decision_id: copy_opt_string(&self.approved_decision_id),
            approved_assignment_id: copy_opt_string(&self.approved_assignment_id),
        }
    }
}

/// Whether two reports hold the same contents.
pub open spec fn same_report(a: Report, b: Report) -> bool {
    &&& a.id == b.id
    &&& a.work_unit_id == b.work_unit_id
    &&& a.assignment_id == b.assignment_id
    &&& a.worker_id == b.worker_id
    &&& a.disposition == b.disposition
    &&& a.summary == b.summary
    &&& a.findings@ == b.findings@
    &&& a.blockers@ == b.blockers@
    &&& a.questions@ == b.questions@
    &&& a.recommended_next_actions@ == b.recommended_next_actions@
    &&& a.confidence == b.confidence
    &&& a.raw_output == b.raw_output
    &&& a.parse_result == b.parse_result
    &&& a.needs_supervisor_review == b.needs_supervisor_review
    &&& a.created_at == b.created_at
}

impl Report {
    pub fn copy(&self) -> (r: Self)
        ensures
            same_report(r, *self),
    {
        Report {
            id: self.id.clone(),
            work_unit_id: self.work_unit_id.clone(),
            assignment_id: self.assignment_id.clone(),
            worker_id: self.worker_id.clone(),
            disposition: self.disposition,
            summary: self.summary.clone(),
            findings: copy_strings(&self.findings),
            blockers: copy_strings(&self.blockers),
            questions: copy_strings(&self.questions),
            recommended_next_actions: copy_strings(&self.recommended_next_actions),
            confidence: self.confidence,
            raw_output: self.raw_output.clone(),
            parse_result: self.parse_result,
            needs_supervisor_review: self.needs_supervisor_review,
            created_at: self.created_at,
        }
    }
}

} // verus!
