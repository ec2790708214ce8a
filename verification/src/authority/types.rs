use vstd::prelude::*;

use crate::model::{
    copy_opt_string, TrackedThreadBackendKind, TrackedThreadBindingState, WorkUnitStatus,
    WorkstreamStatus,
};

verus! {

/// The revision every aggregate starts at.
pub const INITIAL_REVISION: u64 = 1;

/// The largest value the store can persist for a revision or an event sequence (SQLite integers
/// are signed 64-bit).
pub const MAX_STORED_INTEGER: u64 = 0x7fff_ffff_ffff_ffff;

/// A workstream as the authority projection holds it. Timestamps are milliseconds since the
/// Unix epoch.
#[derive(Debug)]
pub struct WorkstreamRecord {
    pub id: String,
    pub title: String,
    pub objective: String,
    pub status: WorkstreamStatus,
    pub priority: String,
    pub revision: u64,
    pub origin_node_id: String,
    pub created_at: i64,
    pub updated_at: i64,
    pub deleted_at: Option<i64>,
}

/// A work unit as the authority projection holds it.
#[derive(Debug)]
pub struct WorkUnitRecord {
    pub id: String,
    pub workstream_id: String,
    pub title: String,
    pub task_statement: String,
    pub status: WorkUnitStatus,
    pub revision: u64,
    pub origin_node_id: String,
    pub created_at: i64,
    pub updated_at: i64,
    pub deleted_at: Option<i64>,
}

/// A tracked thread as the authority projection holds it.
#[derive(Debug)]
pub struct TrackedThreadRecord {
    pub id: String,
    pub work_unit_id: String,
    pub title: String,
    pub notes: Option<String>,
    pub backend_kind: TrackedThreadBackendKind,
    pub upstream_thread_id: Option<String>,
    pub binding_state: TrackedThreadBindingState,
    pub preferred_cwd: Option<String>,
    pub preferred_model: Option<String>,
    pub last_seen_turn_id: Option<String>,
    pub revision: u64,
    pub origin_node_id: String,
    pub created_at: i64,
    pub updated_at: i64,
    pub deleted_at: Option<i64>,
}

/// Field changes requested for a workstream; `None` leaves a field as it is.
#[derive(Debug)]
pub struct WorkstreamPatch {
    pub title: Option<String>,
    pub objective: Option<String>,
    pub status: Option<WorkstreamStatus>,
    pub priority: Option<String>,
}

/// Field changes requested for a work unit.
#[derive(Debug)]
pub struct WorkUnitPatch {
    pub title: Option<String>,
    pub task_statement: Option<String>,
    pub status: Option<WorkUnitStatus>,
}

/// Field changes requested for a tracked thread; for the optional fields, `Some(None)` clears.
#[derive(Debug)]
pub struct TrackedThreadPatch {
    pub title: Option<String>,
    pub notes: Option<Option<String>>,
    pub backend_kind: Option<TrackedThreadBackendKind>,
    pub upstream_thread_id: Option<Option<String>>,
    pub binding_state: Option<TrackedThreadBindingState>,
    pub preferred_cwd: Option<Option<String>>,
    pub preferred_model: Option<Option<String>>,
    pub last_seen_turn_id: Option<Option<String>>,
}

/// Who issued a command, when, and under which correlation.
#[derive(Debug)]
pub struct CommandMetadata {
    pub command_id: String,
    pub issued_at: i64,
    pub origin_node_id: String,
    pub actor: String,
    pub correlation_id: Option<String>,
}

#[derive(Debug)]
pub struct CreateWorkstream {
    pub metadata: CommandMetadata,
    pub workstream_id: String,
    pub title: String,
    pub objective: String,
    pub status: WorkstreamStatus,
    pub priority: String,
}

#[derive(Debug)]
pub struct EditWorkstream {
    pub metadata: CommandMetadata,
    pub workstream_id: String,
    pub expected_revision: u64,
    pub changes: WorkstreamPatch,
}

#[derive(Debug)]
pub struct DeleteWorkstream {
    pub metadata: CommandMetadata,
    pub workstream_id: String,
    pub expected_revision: u64,
    pub delete_token: String,
}

#[derive(Debug)]
pub struct CreateWorkUnit {
    pub metadata: CommandMetadata,
    pub work_unit_id: String,
    pub workstream_id: String,
    pub title: String,
    pub task_statement: String,
    pub status: WorkUnitStatus,
}

#[derive(Debug)]
pub struct EditWorkUnit {
    pub metadata: CommandMetadata,
    pub work_unit_id: String,
    pub expected_revision: u64,
    pub changes: WorkUnitPatch,
}

#[derive(Debug)]
pub struct DeleteWorkUnit {
    pub metadata: CommandMetadata,
    pub work_unit_id: String,
    pub expected_revision: u64,
    pub delete_token: String,
}

#[derive(Debug)]
pub struct CreateTrackedThread {
    pub metadata: CommandMetadata,
    pub tracked_thread_id: String,
    pub work_unit_id: String,
    pub title: String,
    pub notes: Option<String>,
    pub backend_kind: TrackedThreadBackendKind,
    pub upstream_thread_id: Option<String>,
    pub preferred_cwd: Option<String>,
    pub preferred_model: Option<String>,
}

#[derive(Debug)]
pub struct EditTrackedThread {
    pub metadata: CommandMetadata,
    pub tracked_thread_id: String,
    pub expected_revision: u64,
    pub changes: TrackedThreadPatch,
}

#[derive(Debug)]
pub struct DeleteTrackedThread {
    pub metadata: CommandMetadata,
    pub tracked_thread_id: String,
    pub expected_revision: u64,
    pub delete_token: String,
}

/// A mutation request against the authority hierarchy.
#[derive(Debug)]
pub enum AuthorityCommand {
    CreateWorkstream(CreateWorkstream),
    EditWorkstream(EditWorkstream),
    DeleteWorkstream(DeleteWorkstream),
    CreateWorkUnit(CreateWorkUnit),
    EditWorkUnit(EditWorkUnit),
    DeleteWorkUnit(DeleteWorkUnit),
    CreateTrackedThread(CreateTrackedThread),
    EditTrackedThread(EditTrackedThread),
    DeleteTrackedThread(DeleteTrackedThread),
}

/// Which kind of command a receipt records.
#[derive(Debug, Clone, Copy, PartialEq, Eq, Structural)]
pub enum CommandKind {
    CreateWorkstream,
    EditWorkstream,
    DeleteWorkstream,
    CreateWorkUnit,
    EditWorkUnit,
    DeleteWorkUnit,
    CreateTrackedThread,
    EditTrackedThread,
    DeleteTrackedThread,
}

/// Which table an aggregate lives in.
#[derive(Debug, Clone, Copy, PartialEq, Eq, Structural)]
pub enum AggregateType {
    Workstream,
    WorkUnit,
    TrackedThread,
}

/// The record a successful command produced.
#[derive(Debug)]
pub enum AuthorityMutationResult {
    Workstream(WorkstreamRecord),
    WorkUnit(WorkUnitRecord),
    TrackedThread(TrackedThreadRecord),
}

/// A fact recorded in the authority event log.
#[derive(Debug)]
#[allow(inconsistent_fields)]
pub enum AuthorityEvent {
    WorkstreamCreated { workstream: WorkstreamRecord },
    WorkstreamEdited { workstream_id: String, changes: WorkstreamPatch },
    WorkstreamDeleted { workstream_id: String },
    WorkUnitCreated { work_unit: WorkUnitRecord },
    WorkUnitEdited { work_unit_id: String, changes: WorkUnitPatch },
    WorkUnitDeleted { work_unit_id: String },
    TrackedThreadCreated { tracked_thread: TrackedThreadRecord },
    TrackedThreadEdited { tracked_thread_id: String, changes: TrackedThreadPatch },
    TrackedThreadDeleted { tracked_thread_id: String },
}

/// Where an event came from and which aggregate version it produced.
#[derive(Debug)]
pub struct EventMetadata {
    pub event_id: String,
    pub command_id: String,
    pub aggregate_type: AggregateType,
    pub aggregate_id: String,
    pub aggregate_version: u64,
    pub occurred_at: i64,
    pub origin_node_id: String,
    pub causation_id: Option<String>,
    pub correlation_id: Option<String>,
}

/// An event with its metadata.
#[derive(Debug)]
pub struct AuthorityEventEnvelope {
    pub metadata: EventMetadata,
    pub event: AuthorityEvent,
}

/// An event as the log stores it, with its sequence number.
#[derive(Debug)]
pub struct StoredAuthorityEvent {
    pub sequence: u64,
    pub envelope: AuthorityEventEnvelope,
}

/// The stored answer to a command, so that a repeated command gets the same answer.
#[derive(Debug)]
pub struct CommandReceipt {
    pub command_id: String,
    pub command_kind: CommandKind,
    pub aggregate_type: AggregateType,
    pub aggregate_id: String,
    pub accepted: bool,
    pub response: AuthorityMutationResult,
    pub recorded_at: i64,
}

/// Which aggregate a request addresses.
#[derive(Debug)]
pub struct AggregateKey {
    pub aggregate_type: AggregateType,
    pub aggregate_id: String,
}

/// What a delete plan would delete.
#[derive(Debug)]
pub enum DeleteTarget {
    Workstream { workstream_id: String },
    WorkUnit { work_unit_id: String },
    TrackedThread { tracked_thread_id: String },
}

/// The aggregate a delete plan is about, and its human label.
#[derive(Debug)]
pub struct DeletePlanTarget {
    pub aggregate_key: AggregateKey,
    pub label: String,
}

/// What deleting an aggregate would take along, for the user to confirm.
#[derive(Debug)]
pub struct DeletePlan {
    pub target: DeletePlanTarget,
    pub expected_revision: u64,
    pub affected_work_units: u64,
    pub affected_tracked_threads: u64,
    pub has_upstream_bindings: bool,
    pub confirmation_token: String,
    pub requires_typed_confirmation: bool,
    pub expires_at: i64,
}

impl WorkstreamRecord {
    pub fn copy(&self) -> (r: Self)
        ensures
            r == *self,
    {
        WorkstreamRecord {
            id: self.id.clone(),
            title: self.title.clone(),
            objective: self.objective.clone(),
            status: self.status,
            priority: self.priority.clone(),
            revision: self.revision,
            origin_node_id: self.origin_node_id.clone(),
            created_at: self.created_at,
            updated_at: self.updated_at,
            deleted_at: self.deleted_at,
        }
    }
}

impl WorkUnitRecord {
    pub fn copy(&self) -> (r: Self)
        ensures
            r == *self,
    {
        WorkUnitRecord {
            id: self.id.clone(),
            workstream_id: self.workstream_id.clone(),
            title: self.title.clone(),
            task_statement: self.task_statement.clone(),
            status: self.status,
            revision: self.revision,
            origin_node_id: self.origin_node_id.clone(),
            created_at: self.created_at,
            updated_at: self.updated_at,
            deleted_at: self.deleted_at,
        }
    }
}

impl TrackedThreadRecord {
    pub fn copy(&self) -> (r: Self)
        ensures
            r == *self,
    {
        TrackedThreadRecord {
            id: self.id.clone(),
            work_unit_id: self.work_unit_id.clone(),
            title: self.title.clone(),
            notes: copy_opt_string(&self.notes),
            backend_kind: self.backend_kind,
            upstream_thread_id: copy_opt_string(&self.upstream_thread_id),
            binding_state: self.binding_state,
            preferred_cwd: copy_opt_string(&self.preferred_cwd),
            preferred_model: copy_opt_string(&self.preferred_model),
            last_seen_turn_id: copy_opt_string(&self.last_seen_turn_id),
            revision: self.revision,
            origin_node_id: self.origin_node_id.clone(),
            created_at: self.created_at,
            updated_at: self.updated_at,
            deleted_at: self.deleted_at,
        }
    }
}

pub fn copy_opt_opt_string(o: &Option<Option<String>>) -> (r: Option<Option<String>>)
    ensures
        r == *o,
{
    match o {
        Some(inner) => Some(copy_opt_string(inner)),
        None => None,
    }
}

impl WorkstreamPatch {
    /// Whether the patch changes nothing.
    pub open spec fn spec_is_empty(&self) -> bool {
        self.title.is_none() && self.objective.is_none() && self.status.is_none()
            && self.priority.is_none()
    }

    pub fn is_empty(&self) -> (r: bool)
        ensures
            r == self.spec_is_empty(),
    {
        self.title.is_none() && self.objective.is_none() && self.status.is_none()
            && self.priority.is_none()
    }

    pub fn copy(&self) -> (r: Self)
        ensures
            r == *self,
    {
        WorkstreamPatch {
            title: copy_opt_string(&self.title),
            objective: copy_opt_string(&self.objective),
            status: self.status,
            priority: copy_opt_string(&self.priority),
        }
    }
}

impl WorkUnitPatch {
    pub open spec fn spec_is_empty(&self) -> bool {
        self.title.is_none() && self.task_statement.is_none() && self.status.is_none()
    }

    pub fn is_empty(&self) -> (r: bool)
        ensures
            r == self.spec_is_empty(),
    {
        self.title.is_none() && self.task_statement.is_none() && self.status.is_none()
    }

    pub fn copy(&self) -> (r: Self)
        ensures
            r == *self,
    {
        WorkUnitPatch {
            title: copy_opt_string(&self.title),
            task_statement: copy_opt_string(&self.task_statement),
            status: self.status,
        }
    }
}

impl TrackedThreadPatch {
    pub open spec fn spec_is_empty(&self) -> bool {
        self.title.is_none() && self.notes.is_none() && self.backend_kind.is_none()
            && self.upstream_thread_id.is_none() && self.binding_state.is_none()
            && self.preferred_cwd.is_none() && self.preferred_model.is_none()
            && self.last_seen_turn_id.is_none()
    }

    pub fn is_empty(&self) -> (r: bool)
        ensures
            r == self.spec_is_empty(),
    {
        self.title.is_none() && self.notes.is_none() && self.backend_kind.is_none()
            && self.upstream_thread_id.is_none() && self.binding_state.is_none()
            && self.preferred_cwd.is_none() && self.preferred_model.is_none()
            && self.last_seen_turn_id.is_none()
    }

    pub fn copy(&self) -> (r: Self)
        ensures
            r == *self,
    {
        TrackedThreadPatch {
            title: copy_opt_string(&self.title),
            notes: copy_opt_opt_string(&self.notes),
            backend_kind: self.backend_kind,
            upstream_thread_id: copy_opt_opt_string(&self.upstream_thread_id),
            binding_state: self.binding_state,
            preferred_cwd: copy_opt_opt_string(&self.preferred_cwd),
            preferred_model: copy_opt_opt_string(&self.preferred_model),
            last_seen_turn_id: copy_opt_opt_string(&self.last_seen_turn_id),
        }
    }
}

impl AuthorityMutationResult {
    pub fn copy(&self) -> (r: Self)
        ensures
            r == *self,
    {
        match self {
            AuthorityMutationResult::Workstream(r) => AuthorityMutationResult::Workstream(r.copy()),
            AuthorityMutationResult::WorkUnit(r) => AuthorityMutationResult::WorkUnit(r.copy()),
            AuthorityMutationResult::TrackedThread(r) => AuthorityMutationResult::TrackedThread(
                r.copy(),
            ),
        }
    }
}

impl AuthorityCommand {
    /// The metadata every command carries.
    pub open spec fn spec_metadata(&self) -> CommandMetadata {
        match self {
            AuthorityCommand::CreateWorkstream(c) => c.metadata,
            AuthorityCommand::EditWorkstream(c) => c.metadata,
            AuthorityCommand::DeleteWorkstream(c) => c.metadata,
            AuthorityCommand::CreateWorkUnit(c) => c.metadata,
            AuthorityCommand::EditWorkUnit(c) => c.metadata,
            AuthorityCommand::DeleteWorkUnit(c) => c.metadata,
            AuthorityCommand::CreateTrackedThread(c) => c.metadata,
            AuthorityCommand::EditTrackedThread(c) => c.metadata,
            AuthorityCommand::DeleteTrackedThread(c) => c.metadata,
        }
    }

    pub fn metadata(&self) -> (r: &CommandMetadata)
        ensures
            *r == self.spec_metadata(),
    {
        match self {
            AuthorityCommand::CreateWorkstream(c) => &c.metadata,
            AuthorityCommand::EditWorkstream(c) => &c.metadata,
            AuthorityCommand::DeleteWorkstream(c) => &c.metadata,
            AuthorityCommand::CreateWorkUnit(c) => &c.metadata,
            AuthorityCommand::EditWorkUnit(c) => &c.metadata,
            AuthorityCommand::DeleteWorkUnit(c) => &c.metadata,
            AuthorityCommand::CreateTrackedThread(c) => &c.metadata,
            AuthorityCommand::EditTrackedThread(c) => &c.metadata,
            AuthorityCommand::DeleteTrackedThread(c) => &c.metadata,
        }
    }

    /// The kind of the command.
    pub open spec fn spec_kind(&self) -> CommandKind {
        match self {
            AuthorityCommand::CreateWorkstream(_) => CommandKind::CreateWorkstream,
            AuthorityCommand::EditWorkstream(_) => CommandKind::EditWorkstream,
            AuthorityCommand::DeleteWorkstream(_) => CommandKind::DeleteWorkstream,
            AuthorityCommand::CreateWorkUnit(_) => CommandKind::CreateWorkUnit,
            AuthorityCommand::EditWorkUnit(_) => CommandKind::EditWorkUnit,
            AuthorityCommand::DeleteWorkUnit(_) => CommandKind::DeleteWorkUnit,
            AuthorityCommand::CreateTrackedThread(_) => CommandKind::CreateTrackedThread,
            AuthorityCommand::EditTrackedThread(_) => CommandKind::EditTrackedThread,
            AuthorityCommand::DeleteTrackedThread(_) => CommandKind::DeleteTrackedThread,
        }
    }

    pub fn kind(&self) -> (r: CommandKind)
        ensures
            r == self.spec_kind(),
    {
        match self {
            AuthorityCommand::CreateWorkstream(_) => CommandKind::CreateWorkstream,
            AuthorityCommand::EditWorkstream(_) => CommandKind::EditWorkstream,
            AuthorityCommand::DeleteWorkstream(_) => CommandKind::DeleteWorkstream,
            AuthorityCommand::CreateWorkUnit(_) => CommandKind::CreateWorkUnit,
            AuthorityCommand::EditWorkUnit(_) => CommandKind::EditWorkUnit,
            AuthorityCommand::DeleteWorkUnit(_) => CommandKind::DeleteWorkUnit,
            AuthorityCommand::CreateTrackedThread(_) => CommandKind::CreateTrackedThread,
            AuthorityCommand::EditTrackedThread(_) => CommandKind::EditTrackedThread,
            AuthorityCommand::DeleteTrackedThread(_) => CommandKind::DeleteTrackedThread,
        }
    }

    /// The aggregate a command addresses.
    pub open spec fn spec_aggregate(&self) -> (AggregateType, String) {
        match self {
            AuthorityCommand::CreateWorkstream(c) => (AggregateType::Workstream, c.workstream_id),
            AuthorityCommand::EditWorkstream(c) => (AggregateType::Workstream, c.workstream_id),
            AuthorityCommand::DeleteWorkstream(c) => (AggregateType::Workstream, c.workstream_id),
            AuthorityCommand::CreateWorkUnit(c) => (AggregateType::WorkUnit, c.work_unit_id),
            AuthorityCommand::EditWorkUnit(c) => (AggregateType::WorkUnit, c.work_unit_id),
            AuthorityCommand::DeleteWorkUnit(c) => (AggregateType::WorkUnit, c.work_unit_id),
            AuthorityCommand::CreateTrackedThread(c) => (
                AggregateType::TrackedThread,
                c.tracked_thread_id,
            ),
            AuthorityCommand::EditTrackedThread(c) => (
                AggregateType::TrackedThread,
                c.tracked_thread_id,
            ),
            AuthorityCommand::DeleteTrackedThread(c) => (
                AggregateType::TrackedThread,
                c.tracked_thread_id,
            ),
        }
    }

    pub fn aggregate(&self) -> (r: (AggregateType, String))
        ensures
            r == self.spec_aggregate(),
    {
        match self {
            AuthorityCommand::CreateWorkstream(c) => (
                AggregateType::Workstream,
                c.workstream_id.clone(),
            ),
            AuthorityCommand::EditWorkstream(c) => (
                AggregateType::Workstream,
                c.workstream_id.clone(),
            ),
            AuthorityCommand::DeleteWorkstream(c) => (
                AggregateType::Workstream,
                c.workstream_id.clone(),
            ),
            AuthorityCommand::CreateWorkUnit(c) => (
                AggregateType::WorkUnit,
                c.work_unit_id.clone(),
            ),
            AuthorityCommand::EditWorkUnit(c) => (AggregateType::WorkUnit, c.work_unit_id.clone()),
            AuthorityCommand::DeleteWorkUnit(c) => (
                AggregateType::WorkUnit,
                c.work_unit_id.clone(),
            ),
            AuthorityCommand::CreateTrackedThread(c) => (
                AggregateType::TrackedThread,
                c.tracked_thread_id.clone(),
            ),
            AuthorityCommand::EditTrackedThread(c) => (
                AggregateType::TrackedThread,
                c.tracked_thread_id.clone(),
            ),
            AuthorityCommand::DeleteTrackedThread(c) => (
                AggregateType::TrackedThread,
                c.tracked_thread_id.clone(),
            ),
        }
    }
}

} // verus!
