//! Importing the workstreams and work units of the state kept before the authority log: each
//! becomes a creation event at its first revision, oldest first.

use vstd::prelude::*;

use super::store::AuthorityState;
use super::types::{
    AggregateType, AuthorityEvent, AuthorityEventEnvelope, EventMetadata, WorkUnitRecord, WorkstreamRecord,
    INITIAL_REVISION,
};
use crate::model::{WorkUnitStatus, WorkstreamStatus};
use crate::runtime::ranking::{oldest_first, sort_oldest_first, Ranked};

verus! {

/// A workstream as the legacy state file kept it.
#[derive(Debug)]
pub struct LegacyWorkstream {
    pub id: String,
    pub title: String,
    pub objective: String,
    pub status: WorkstreamStatus,
    pub priority: String,
    pub created_at: i64,
    pub updated_at: i64,
}

/// A work unit as the legacy state file kept it.
#[derive(Debug)]
pub struct LegacyWorkUnit {
    pub id: String,
    pub workstream_id: String,
    pub title: String,
    pub task_statement: String,
    pub status: WorkUnitStatus,
    pub created_at: i64,
    pub updated_at: i64,
}

impl Ranked for LegacyWorkstream {
    open spec fn rank_time(&self) -> i64 { self.created_at }
    open spec fn rank_name(&self) -> Seq<char> { self.id@ }
    fn time(&self) -> (r: i64) { self.created_at }
    fn name(&self) -> (r: &str) { self.id.as_str() }
}

impl Ranked for LegacyWorkUnit {
    open spec fn rank_time(&self) -> i64 { self.created_at }
    open spec fn rank_name(&self) -> Seq<char> { self.id@ }
    fn time(&self) -> (r: i64) { self.created_at }
    fn name(&self) -> (r: &str) { self.id.as_str() }
}

/// Whether `m` is the metadata of an imported creation event for an aggregate created at `at`.
pub open spec fn imported_metadata(m: EventMetadata, ty: AggregateType, id: Seq<char>, at: i64, origin: Seq<char>) -> bool {
    &&& m.aggregate_type == ty
    &&& m.aggregate_id@ == id
    &&& m.aggregate_version == INITIAL_REVISION
    &&& m.occurred_at == at
    &&& m.origin_node_id@ == origin
    &&& m.causation_id is None
    &&& m.correlation_id is None
}

/// Whether `e` creates the workstream `l` at its first revision, from node `origin`.
pub open spec fn imports_workstream(l: LegacyWorkstream, origin: Seq<char>, e: AuthorityEventEnvelope) -> bool {
    &&& imported_metadata(e.metadata, AggregateType::Workstream, l.id@, l.created_at, origin)
    &&& e.event matches AuthorityEvent::WorkstreamCreated { workstream: w }
    &&& w.id == l.id
    &&& w.title == l.title
    &&& w.objective == l.objective
    &&& w.status == l.status
    &&& w.priority == l.priority
    &&& w.revision == INITIAL_REVISION
    &&& w.origin_node_id@ == origin
    &&& w.created_at == l.created_at
    &&& w.updated_at == l.updated_at
    &&& w.deleted_at is None
}

/// Whether `e` creates the work unit `l` at its first revision, from node `origin`.
pub open spec fn imports_work_unit(l: LegacyWorkUnit, origin: Seq<char>, e: AuthorityEventEnvelope) -> bool {
    &&& imported_metadata(e.metadata, AggregateType::WorkUnit, l.id@, l.created_at, origin)
    &&& e.event matches AuthorityEvent::WorkUnitCreated { work_unit: u }
    &&& u.id == l.id
    &&& u.workstream_id == l.workstream_id
    &&& u.title == l.title
    &&& u.task_statement == l.task_statement
    &&& u.status == l.status
    &&& u.revision == INITIAL_REVISION
    &&& u.origin_node_id@ == origin
    &&& u.created_at == l.created_at
    &&& u.updated_at == l.updated_at
    &&& u.deleted_at is None
}

/// Whether `ws` and `us` are the given workstreams and work units, each oldest first.
pub open spec fn import_order(
    ws: Seq<LegacyWorkstream>,
    us: Seq<LegacyWorkUnit>,
    workstreams: Seq<LegacyWorkstream>,
    work_units: Seq<LegacyWorkUnit>,
) -> bool {
    &&& ws.to_multiset() == workstreams.to_multiset()
    &&& oldest_first(ws)
    &&& us.to_multiset() == work_units.to_multiset()
    &&& oldest_first(us)
}

/// Whether `events` import `ws` and then `us`, one event each, in that order.
pub open spec fn imports_all(
    events: Seq<AuthorityEventEnvelope>,
    ws: Seq<LegacyWorkstream>,
    us: Seq<LegacyWorkUnit>,
    origin: Seq<char>,
) -> bool {
    &&& events.len() == ws.len() + us.len()
    &&& forall|i: int| 0 <= i < ws.len() ==> imports_workstream(ws[i], origin, #[trigger] events[i])
    &&& forall|j: int| 0 <= j < us.len() ==> imports_work_unit(us[j], origin, #[trigger] events[ws.len() + j])
}

fn import_metadata<F: Fn() -> String>(ty: AggregateType, id: &String, at: i64, origin_node_id: &str, fresh_id: &F) -> (r: EventMetadata)
    requires
        fresh_id.requires(()),
    ensures
        imported_metadata(r, ty, id@, at, origin_node_id@),
{
    let event_id = fresh_id();
    let command_id = fresh_id();
    EventMetadata {
        event_id,
        command_id,
        aggregate_type: ty,
        aggregate_id: id.clone(),
        aggregate_version: INITIAL_REVISION,
        occurred_at: at,
        origin_node_id: origin_node_id.to_string(),
        causation_id: None,
        correlation_id: None,
    }
}

/// The creation events that import the legacy state's workstreams, then its work units, each
/// oldest first and ids ascending among equals, all at the first revision and from
/// `origin_node_id`; each event and command gets an id from `fresh_id`.
pub fn legacy_import_events<F: Fn() -> String>(
    workstreams: Vec<LegacyWorkstream>,
    work_units: Vec<LegacyWorkUnit>,
    origin_node_id: &str,
    fresh_id: &F,
) -> (r: Vec<AuthorityEventEnvelope>)
    requires
        fresh_id.requires(()),
    ensures
        exists|ws: Seq<LegacyWorkstream>, us: Seq<LegacyWorkUnit>|
            #[trigger] import_order(ws, us, workstreams@, work_units@) && imports_all(r@, ws, us, origin_node_id@),
{
    let ws = sort_oldest_first(workstreams);
    let us = sort_oldest_first(work_units);
    let mut events: Vec<AuthorityEventEnvelope> = Vec::new();
    let mut i: usize = 0;
    while i < ws.len()
        invariant
            i <= ws@.len(),
            fresh_id.requires(()),
            events@.len() == i,
            forall|k: int| 0 <= k < i ==> imports_workstream(ws@[k], origin_node_id@, #[trigger] events@[k]),
        decreases ws.len() - i,
    {
        let l = &ws[i];
        let metadata = import_metadata(AggregateType::Workstream, &l.id, l.created_at, origin_node_id, fresh_id);
        let record = WorkstreamRecord {
            id: l.id.clone(),
            title: l.title.clone(),
            objective: l.objective.clone(),
            status: l.status,
            priority: l.priority.clone(),
            revision: INITIAL_REVISION,
            origin_node_id: origin_node_id.to_string(),
            created_at: l.created_at,
            updated_at: l.updated_at,
            deleted_at: None,
        };
        events.push(AuthorityEventEnvelope { metadata, event: AuthorityEvent::WorkstreamCreated { workstream: record } });
        i = i + 1;
    }
    let n = ws.len();
    let mut j: usize = 0;
    while j < us.len()
        invariant
            j <= us@.len(),
            fresh_id.requires(()),
            n == ws@.len(),
            events@.len() == n + j,
            forall|k: int| 0 <= k < n ==> imports_workstream(ws@[k], origin_node_id@, #[trigger] events@[k]),
            forall|k: int| 0 <= k < j ==> imports_work_unit(us@[k], origin_node_id@, #[trigger] events@[n + k]),
        decreases us.len() - j,
    {
        let l = &us[j];
        let metadata = import_metadata(AggregateType::WorkUnit, &l.id, l.created_at, origin_node_id, fresh_id);
        let record = WorkUnitRecord {
            id: l.id.clone(),
            workstream_id: l.workstream_id.clone(),
            title: l.title.clone(),
            task_statement: l.task_statement.clone(),
            status: l.status,
            revision: INITIAL_REVISION,
            origin_node_id: origin_node_id.to_string(),
            created_at: l.created_at,
            updated_at: l.updated_at,
            deleted_at: None,
        };
        let ghost before = events@;
        events.push(AuthorityEventEnvelope { metadata, event: AuthorityEvent::WorkUnitCreated { work_unit: record } });
        proof {
            assert forall|k: int| 0 <= k < n implies imports_workstream(ws@[k], origin_node_id@, #[trigger] events@[k]) by {
                assert(events@[k] == before[k]);
            }
            assert forall|k: int| 0 <= k < j + 1 implies imports_work_unit(us@[k], origin_node_id@, #[trigger] events@[n + k]) by {
                if k < j {
                    assert(events@[n + k] == before[n + k]);
                }
            }
        }
        j = j + 1;
    }
    assert(import_order(ws@, us@, workstreams@, work_units@));
    events
}

/// What the one-time import of the legacy state does next.
#[derive(Debug, Clone, Copy, PartialEq, Eq, Structural)]
pub enum LegacyImportStep {
    /// The store already records how the import went: nothing more to do.
    AlreadySettled,
    /// The store already holds authority data: the import is skipped for good.
    SkipExistingData,
    /// There is no legacy state file: the import is skipped for good.
    SkipNoStateFile,
    /// Read the state file, append its creation events, then record the import.
    Import,
}

/// The step the import takes, by whether the store records an import status, whether it holds
/// any authority data, and whether the legacy state file exists; checked in that order.
pub open spec fn import_step(status_recorded: bool, has_authority_data: bool, state_file_exists: bool) -> LegacyImportStep {
    if status_recorded {
        LegacyImportStep::AlreadySettled
    } else if has_authority_data {
        LegacyImportStep::SkipExistingData
    } else if !state_file_exists {
        LegacyImportStep::SkipNoStateFile
    } else {
        LegacyImportStep::Import
    }
}

/// The status the store records when a step is done, if it records one.
pub open spec fn import_status(step: LegacyImportStep) -> Option<Seq<char>> {
    match step {
        LegacyImportStep::AlreadySettled => None,
        LegacyImportStep::SkipExistingData => Some("existing_db"@),
        LegacyImportStep::SkipNoStateFile => Some("no_state_json"@),
        LegacyImportStep::Import => Some("imported_workstreams_work_units"@),
    }
}

/// The step the one-time import of the legacy state takes next.
pub fn legacy_import_step(status_recorded: bool, has_authority_data: bool, state_file_exists: bool) -> (r: LegacyImportStep)
    ensures
        r == import_step(status_recorded, has_authority_data, state_file_exists),
{
    if status_recorded {
        LegacyImportStep::AlreadySettled
    } else if has_authority_data {
        LegacyImportStep::SkipExistingData
    } else if !state_file_exists {
        LegacyImportStep::SkipNoStateFile
    } else {
        LegacyImportStep::Import
    }
}

impl LegacyImportStep {
    /// The status the store records once this step is done.
    pub fn recorded_status(&self) -> (r: Option<String>)
        ensures
            match r {
                Some(t) => import_status(*self) == Some(t@),
                None => import_status(*self) is None,
            },
    {
        match self {
            LegacyImportStep::AlreadySettled => None,
            LegacyImportStep::SkipExistingData => Some(crate::text::owned("existing_db")),
            LegacyImportStep::SkipNoStateFile => Some(crate::text::owned("no_state_json")),
            LegacyImportStep::Import => Some(crate::text::owned("imported_workstreams_work_units")),
        }
    }
}

/// Once a status is recorded the import never runs again, and it runs only into a store that
/// holds no authority data.
pub proof fn lemma_import_runs_once(status_recorded: bool, has_authority_data: bool, state_file_exists: bool)
    ensures
        import_step(status_recorded, has_authority_data, state_file_exists) == LegacyImportStep::Import
            ==> !status_recorded && !has_authority_data && state_file_exists,
        import_step(status_recorded, has_authority_data, state_file_exists) != LegacyImportStep::AlreadySettled
            ==> import_status(import_step(status_recorded, has_authority_data, state_file_exists)) is Some,
{
}

impl AuthorityState {
    /// Whether the store holds any authority data: an event or a projection row.
    pub fn has_authority_data(&self) -> (r: bool)
        ensures
            r == (self.events@.len() > 0 || self.workstreams@.len() > 0 || self.work_units@.len() > 0
                || self.tracked_threads@.len() > 0),
    {
        self.events.len() > 0 || self.workstreams.len() > 0 || self.work_units.len() > 0 || self.tracked_threads.len() > 0
    }
}

} // verus!
