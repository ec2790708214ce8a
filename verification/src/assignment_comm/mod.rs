//! The assignment communication contract: the packet the supervisor hands a worker and the
//! report envelope the worker answers with.

use vstd::prelude::*;

pub mod parse;
pub mod policy;

verus! {

/// The line that opens a worker's report envelope.
pub const REPORT_MARKER_BEGIN: &'static str = "ORCAS_REPORT_BEGIN";

/// The line that closes a worker's report envelope.
pub const REPORT_MARKER_END: &'static str = "ORCAS_REPORT_END";

/// The schema of the report envelope a worker writes.
pub const WORKER_REPORT_ENVELOPE_SCHEMA_VERSION: &'static str = "worker_report_envelope.v1";

/// The schema of the packet handed to a worker.
pub const ASSIGNMENT_COMMUNICATION_PACKET_SCHEMA_VERSION: &'static str = "assignment_communication_packet.v1";

/// The schema of the report contract inside a packet.
pub const WORKER_REPORT_CONTRACT_SCHEMA_VERSION: &'static str = "worker_report_contract.v1";

/// What kind of work an assignment asks for.
#[derive(Debug, Clone, Copy, PartialEq, Eq, Structural)]
pub enum AssignmentTaskMode {
    Implement,
}

/// How the worker says the assignment ended.
#[derive(Debug, Clone, Copy, PartialEq, Eq, Structural)]
pub enum ReportDisposition {
    Completed,
    Partial,
    Failed,
    Interrupted,
    Unknown,
}

/// How sure the worker is of its report.
#[derive(Debug, Clone, Copy, PartialEq, Eq, Structural)]
pub enum ReportConfidence {
    High,
    Medium,
    Unknown,
}

/// How far a report could be trusted as it was parsed.
#[derive(Debug, Clone, Copy, PartialEq, Eq, Structural)]
pub enum ReportParseResult {
    Parsed,
    Ambiguous,
    Invalid,
}

/// Whether the worker asks for a supervisor's review.
#[derive(Debug, Clone, Copy, PartialEq, Eq, Structural)]
pub enum ReviewSignalLevel {
    Normal,
    Required,
}

/// The worker's request for review, with its reasons.
#[derive(Debug)]
pub struct ReviewSignal {
    pub level: ReviewSignalLevel,
    pub reasons: Vec<String>,
    pub focus: Vec<String>,
}

/// The worker's verdict on one acceptance criterion.
#[derive(Debug)]
pub struct AcceptanceResult {
    pub criterion_id: String,
}

/// A file the worker wrote.
#[derive(Debug)]
pub struct TouchedFile {
    pub path: String,
}

/// What an implement-mode report adds.
#[derive(Debug)]
pub struct ImplementModePayload {
    pub semantic_changes: Vec<String>,
    pub tests_run: Vec<String>,
    pub rough_edges: Vec<String>,
}

/// The mode-specific part of a report.
#[derive(Debug)]
pub enum WorkerReportModePayload {
    Implement(ImplementModePayload),
}

/// The structured report a worker writes between the markers.
#[derive(Debug)]
pub struct WorkerReportEnvelope {
    pub schema_version: String,
    pub assignment_id: String,
    pub packet_id: String,
    pub task_mode: AssignmentTaskMode,
    pub disposition: ReportDisposition,
    pub summary: String,
    pub confidence: ReportConfidence,
    pub acceptance_results: Vec<AcceptanceResult>,
    pub triggered_stop_condition_ids: Vec<String>,
    pub touched_files: Vec<TouchedFile>,
    pub commands_run: Vec<String>,
    pub artifacts: Vec<String>,
    pub blockers: Vec<String>,
    pub questions: Vec<String>,
    pub recommended_next_actions: Vec<String>,
    pub uncertainties: Vec<String>,
    pub review_signal: ReviewSignal,
    pub mode_payload: WorkerReportModePayload,
}

/// An acceptance criterion or stop condition of a packet.
#[derive(Debug)]
pub struct PacketItem {
    pub id: String,
    pub text: String,
}

/// What an implement-mode packet adds.
#[derive(Debug)]
pub struct ImplementModeSpec {
    pub expected_verification_commands: Vec<String>,
}

/// The mode-specific part of a packet.
#[derive(Debug)]
pub enum AssignmentModeSpec {
    Implement(ImplementModeSpec),
}

/// The paths a worker may write under; empty means anywhere.
#[derive(Debug)]
pub struct AllowedScope {
    pub allowed_write_paths: Vec<String>,
}

/// How the worker must answer.
#[derive(Debug)]
pub struct WorkerReportContract {
    pub schema_version: String,
    pub task_mode: AssignmentTaskMode,
    pub marker_begin: String,
    pub marker_end: String,
}

/// A block of context lines a packet carries.
#[derive(Debug)]
pub struct ContextBlock {
    pub id: String,
    pub kind: String,
    pub lines: Vec<String>,
}

/// The packet handed to a worker with its assignment.
#[derive(Debug)]
pub struct AssignmentCommunicationPacket {
    pub schema_version: String,
    pub packet_id: String,
    pub assignment_id: String,
    pub source_decision_id: Option<String>,
    pub source_report_id: Option<String>,
    pub source_proposal_id: Option<String>,
    pub predecessor_assignment_id: Option<String>,
    pub task_mode: AssignmentTaskMode,
    pub mode_spec: AssignmentModeSpec,
    pub objective: String,
    pub instructions: Vec<String>,
    pub non_goals: Vec<String>,
    pub included_context: Vec<ContextBlock>,
    pub acceptance_criteria: Vec<PacketItem>,
    pub stop_conditions: Vec<PacketItem>,
    pub allowed_scope: AllowedScope,
    pub response_contract: WorkerReportContract,
}

/// Where a report envelope was found in a worker's output.
#[derive(Debug)]
pub struct EnvelopeExtraction {
    /// The text between the markers, trimmed, when the output holds exactly one envelope.
    pub json_payload: Option<String>,
    /// Whether non-blank text stands before or after the envelope.
    pub surrounding_text: bool,
}

/// What checking an envelope against its packet found.
#[derive(Debug)]
pub struct EnvelopeValidationResult {
    pub parse_result: ReportParseResult,
    pub structural_issues: Vec<String>,
    pub semantic_issues: Vec<String>,
    pub policy_violations: Vec<String>,
    pub needs_supervisor_review: bool,
}

/// The validation stored with a report, with the time it was made.
#[derive(Debug)]
pub struct WorkerReportValidation {
    pub validated_at: i64,
    pub parse_result: ReportParseResult,
    pub structural_issues: Vec<String>,
    pub semantic_issues: Vec<String>,
    pub policy_violations: Vec<String>,
    pub needs_supervisor_review: bool,
}

impl AssignmentModeSpec {
    pub open spec fn spec_task_mode(&self) -> AssignmentTaskMode {
        match self {
            AssignmentModeSpec::Implement(_) => AssignmentTaskMode::Implement,
        }
    }

    /// The task mode this spec belongs to.
    pub fn task_mode(&self) -> (r: AssignmentTaskMode)
        ensures
            r == self.spec_task_mode(),
    {
        match self {
            AssignmentModeSpec::Implement(_) => AssignmentTaskMode::Implement,
        }
    }
}

impl WorkerReportModePayload {
    pub open spec fn spec_task_mode(&self) -> AssignmentTaskMode {
        match self {
            WorkerReportModePayload::Implement(_) => AssignmentTaskMode::Implement,
        }
    }

    /// The task mode this payload belongs to.
    pub fn task_mode(&self) -> (r: AssignmentTaskMode)
        ensures
            r == self.spec_task_mode(),
    {
        match self {
            WorkerReportModePayload::Implement(_) => AssignmentTaskMode::Implement,
        }
    }
}

} // verus!
