use vstd::prelude::*;

use super::rules::{
    apply_tracked_thread_patch, apply_work_unit_patch, apply_workstream_patch, binding_for,
    binding_taken_message, deleted_message, empty_edit_message, empty_field_message,
    ensure_active, ensure_revision, exists_message, require_non_empty, revision_mismatch_message,
    revision_overflow_message, tracked_thread_patch_error, tracked_thread_patched,
    unknown_message, work_unit_patch_error, work_unit_patched, workstream_patch_error,
    workstream_patched,
};
use super::store::{
    append_outcome, binding_holder, binding_taken, bindings_unique, lemma_binding_holder,
    log_full_message, project, tables_wf, tt_pos_in, wu_pos_in, ws_pos_in, AuthorityState, Tables,
};
use super::types::{AggregateType, AuthorityEvent, AuthorityEventEnvelope, CommandMetadata, CreateTrackedThread, CreateWorkUnit, CreateWorkstream, EditTrackedThread, EditWorkUnit, EditWorkstream, EventMetadata, StoredAuthorityEvent, TrackedThreadRecord, WorkUnitRecord, WorkstreamRecord, INITIAL_REVISION, MAX_STORED_INTEGER};
use crate::model::{OrcasError, OrcasErrorView};
use crate::model::{copy_opt_string, TrackedThreadBindingState};
use crate::text::{cat2, cat3, cat5, is_blank, owned};

verus! {

/// Whether a stored event carries what a command's metadata and the aggregate fix; only the
/// random event id, and the random causation id of a cascaded event, are left open.
pub open spec fn event_agrees(
    e: super::types::StoredAuthorityEvent,
    sequence: int,
    md: CommandMetadata,
    ty: AggregateType,
    id: Seq<char>,
    version: u64,
    cascaded: bool,
    ev: AuthorityEvent,
) -> bool {
    &&& e.sequence == sequence
    &&& e.envelope.metadata.command_id == md.command_id
    &&& e.envelope.metadata.aggregate_type == ty
    &&& e.envelope.metadata.aggregate_id@ == id
    &&& e.envelope.metadata.aggregate_version == version
    &&& e.envelope.metadata.occurred_at == md.issued_at
    &&& e.envelope.metadata.origin_node_id == md.origin_node_id
    &&& (e.envelope.metadata.causation_id is Some) == cascaded
    &&& e.envelope.metadata.correlation_id == md.correlation_id
    &&& e.envelope.event == ev
}

/// What appending one event does, given the room left in the log.
pub open spec fn room_outcome(s: AuthorityState, version: u64, at: i64, ev: AuthorityEvent) -> Result<
    Tables,
    OrcasErrorView,
> {
    if version <= MAX_STORED_INTEGER && s.events.len() >= MAX_STORED_INTEGER {
        Err(OrcasErrorView::Store(log_full_message()))
    } else {
        project(s.tables(), version, at, ev)
    }
}

/// The log of `post` is that of `pre` with one more event that agrees with the command, and the
/// receipts are untouched.
pub open spec fn one_event_appended(
    pre: AuthorityState,
    post: AuthorityState,
    md: CommandMetadata,
    ty: AggregateType,
    id: Seq<char>,
    version: u64,
    cascaded: bool,
    ev: AuthorityEvent,
) -> bool {
    &&& post.events.len() == pre.events.len() + 1
    &&& post.events@.drop_last() == pre.events@
    &&& event_agrees(post.events@.last(), pre.events.len() + 1, md, ty, id, version, cascaded, ev)
    &&& post.receipts@ == pre.receipts@
}

/// The record a create-workstream command makes.
pub open spec fn new_workstream(c: CreateWorkstream) -> WorkstreamRecord {
    WorkstreamRecord {
        id: c.workstream_id,
        title: c.title,
        objective: c.objective,
        status: c.status,
        priority: c.priority,
        revision: INITIAL_REVISION,
        origin_node_id: c.metadata.origin_node_id,
        created_at: c.metadata.issued_at,
        updated_at: c.metadata.issued_at,
        deleted_at: None,
    }
}

/// Why a create-workstream command is refused, if it is.
pub open spec fn create_workstream_error(s: AuthorityState, c: CreateWorkstream) -> Option<
    OrcasErrorView,
> {
    if is_blank(c.title@) {
        Some(OrcasErrorView::Protocol(empty_field_message("title"@)))
    } else if is_blank(c.objective@) {
        Some(OrcasErrorView::Protocol(empty_field_message("objective"@)))
    } else if is_blank(c.priority@) {
        Some(OrcasErrorView::Protocol(empty_field_message("priority"@)))
    } else if ws_pos_in(s.workstreams@, c.workstream_id@) is Some {
        Some(OrcasErrorView::Protocol(exists_message("workstream"@, c.workstream_id@)))
    } else if s.events.len() >= MAX_STORED_INTEGER {
        Some(OrcasErrorView::Store(log_full_message()))
    } else {
        None
    }
}

/// Why an edit-workstream command is refused, if it is.
pub open spec fn edit_workstream_error(s: AuthorityState, c: EditWorkstream) -> Option<
    OrcasErrorView,
> {
    if c.changes.spec_is_empty() {
        Some(OrcasErrorView::Protocol(empty_edit_message("workstream"@)))
    } else {
        match ws_pos_in(s.workstreams@, c.workstream_id@) {
            None => Some(
                OrcasErrorView::Protocol(unknown_message("workstream"@, c.workstream_id@)),
            ),
            Some(i) => {
                let r = s.workstreams@[i];
                if r.deleted_at is Some {
                    Some(
                        OrcasErrorView::Protocol(
                            deleted_message("workstream"@, c.workstream_id@),
                        ),
                    )
                } else if r.revision != c.expected_revision {
                    Some(
                        OrcasErrorView::Protocol(
                            revision_mismatch_message(
                                "workstream"@,
                                c.workstream_id@,
                                c.expected_revision,
                                r.revision,
                            ),
                        ),
                    )
                } else if workstream_patch_error(c.changes) is Some {
                    workstream_patch_error(c.changes)
                } else if r.revision >= MAX_STORED_INTEGER {
                    Some(OrcasErrorView::Store(revision_overflow_message()))
                } else if s.events.len() >= MAX_STORED_INTEGER {
                    Some(OrcasErrorView::Store(log_full_message()))
                } else {
                    None
                }
            },
        }
    }
}

/// The workstream an accepted edit produces.
pub open spec fn edited_workstream(s: AuthorityState, c: EditWorkstream) -> WorkstreamRecord {
    let r = s.workstreams@[ws_pos_in(s.workstreams@, c.workstream_id@)->0];
    workstream_patched(r, c.changes, (r.revision + 1) as u64, c.metadata.issued_at)
}

/// What an accepted command does to the store: the effect of creating a workstream.
pub open spec fn workstream_created(pre: AuthorityState, post: AuthorityState, c: CreateWorkstream) -> bool {
    &&& post.tables() == Tables { workstreams: pre.workstreams@.push(new_workstream(c)), ..pre.tables() }
    &&& one_event_appended(pre, post, c.metadata, AggregateType::Workstream, c.workstream_id@, INITIAL_REVISION, false, AuthorityEvent::WorkstreamCreated { workstream: new_workstream(c) })
}

/// What an accepted command does to the store: the effect of editing a workstream.
pub open spec fn workstream_edited(pre: AuthorityState, post: AuthorityState, c: EditWorkstream) -> bool {
    let i = ws_pos_in(pre.workstreams@, c.workstream_id@)->0;
    let rec = edited_workstream(pre, c);
    &&& post.tables() == Tables { workstreams: pre.workstreams@.update(i, rec), ..pre.tables() }
    &&& one_event_appended(pre, post, c.metadata, AggregateType::Workstream, c.workstream_id@, rec.revision, false, AuthorityEvent::WorkstreamEdited { workstream_id: c.workstream_id, changes: c.changes })
}

/// What an accepted command does to the store: the effect of creating a work unit.
pub open spec fn work_unit_created(pre: AuthorityState, post: AuthorityState, c: CreateWorkUnit) -> bool {
    &&& post.tables() == Tables { work_units: pre.work_units@.push(new_work_unit(c)), ..pre.tables() }
    &&& one_event_appended(pre, post, c.metadata, AggregateType::WorkUnit, c.work_unit_id@, INITIAL_REVISION, false, AuthorityEvent::WorkUnitCreated { work_unit: new_work_unit(c) })
}

/// What an accepted command does to the store: the effect of editing a work unit.
pub open spec fn work_unit_edited(pre: AuthorityState, post: AuthorityState, c: EditWorkUnit) -> bool {
    let i = wu_pos_in(pre.work_units@, c.work_unit_id@)->0;
    let rec = edited_work_unit(pre, c);
    &&& post.tables() == Tables { work_units: pre.work_units@.update(i, rec), ..pre.tables() }
    &&& one_event_appended(pre, post, c.metadata, AggregateType::WorkUnit, c.work_unit_id@, rec.revision, false, AuthorityEvent::WorkUnitEdited { work_unit_id: c.work_unit_id, changes: c.changes })
}

/// What an accepted command does to the store: the effect of creating a tracked thread.
pub open spec fn tracked_thread_created(pre: AuthorityState, post: AuthorityState, c: CreateTrackedThread) -> bool {
    &&& post.tables() == Tables { tracked_threads: pre.tracked_threads@.push(new_tracked_thread(c)), ..pre.tables() }
    &&& one_event_appended(pre, post, c.metadata, AggregateType::TrackedThread, c.tracked_thread_id@, INITIAL_REVISION, false, AuthorityEvent::TrackedThreadCreated { tracked_thread: new_tracked_thread(c) })
}

/// What an accepted command does to the store: the effect of editing a tracked thread.
pub open spec fn tracked_thread_edited(pre: AuthorityState, post: AuthorityState, c: EditTrackedThread) -> bool {
    let i = tt_pos_in(pre.tracked_threads@, c.tracked_thread_id@)->0;
    let rec = edited_tracked_thread(pre, c);
    &&& post.tables() == Tables { tracked_threads: pre.tracked_threads@.update(i, rec), ..pre.tables() }
    &&& one_event_appended(pre, post, c.metadata, AggregateType::TrackedThread, c.tracked_thread_id@, rec.revision, false, AuthorityEvent::TrackedThreadEdited { tracked_thread_id: c.tracked_thread_id, changes: c.changes })
}

fn copy_metadata_event(
    md: &CommandMetadata,
    ty: AggregateType,
    id: &String,
    version: u64,
    event_id: String,
    causation_id: Option<String>,
) -> (r: EventMetadata)
    ensures
        r.command_id == md.command_id,
        r.aggregate_type == ty,
        r.aggregate_id@ == id@,
        r.aggregate_version == version,
        r.occurred_at == md.issued_at,
        r.origin_node_id == md.origin_node_id,
        r.causation_id == causation_id,
        r.correlation_id == md.correlation_id,
        r.event_id == event_id,
{
    EventMetadata {
        event_id,
        command_id: md.command_id.clone(),
        aggregate_type: ty,
        aggregate_id: id.clone(),
        aggregate_version: version,
        occurred_at: md.issued_at,
        origin_node_id: md.origin_node_id.clone(),
        causation_id,
        correlation_id: copy_opt_string(&md.correlation_id),
    }
}

impl AuthorityState {
    /// Appends one event for a command and applies it. The event gets an id from `fresh_id`, and
    /// a cascaded event a causation id from it too.
    pub(crate) fn push_event<F: Fn() -> String>(
        &mut self,
        md: &CommandMetadata,
        ty: AggregateType,
        id: &String,
        version: u64,
        cascaded: bool,
        event: AuthorityEvent,
        fresh_id: &F,
    ) -> (r: Result<(), OrcasError>)
        requires
            old(self).wf(),
            fresh_id.requires(()),
        ensures
            final(self).wf(),
            match room_outcome(*old(self), version, md.issued_at, event) {
                Err(e) => r is Err && r->Err_0@ == e && *final(self) == *old(self),
                Ok(t) => r is Ok && final(self).tables() == t && one_event_appended(
                    *old(self),
                    *final(self),
                    *md,
                    ty,
                    id@,
                    version,
                    cascaded,
                    event,
                ),
            },
    {
        let event_id = fresh_id();
        let causation_id = if cascaded {
            Some(fresh_id())
        } else {
            None
        };
        let metadata = copy_metadata_event(md, ty, id, version, event_id, causation_id);
        let envelope = AuthorityEventEnvelope { metadata, event };
        let ghost pre = *self;
        let ghost env = envelope;
        assert(append_outcome(pre, env) == room_outcome(pre, version, md.issued_at, event));
        let r = self.append_event(envelope);
        proof {
            if r is Ok {
                assert(self.events@.drop_last() =~= pre.events@);
                assert(self.events@.last() == StoredAuthorityEvent {
                    sequence: (pre.events.len() + 1) as u64,
                    envelope: env,
                });
            }
        }
        r
    }

    /// Creates a workstream.
    pub fn create_workstream<F: Fn() -> String>(&mut self, c: &CreateWorkstream, fresh_id: &F) -> (r: Result<
        WorkstreamRecord,
        OrcasError,
    >)
        requires
            old(self).wf(),
            fresh_id.requires(()),
        ensures
            final(self).wf(),
            match create_workstream_error(*old(self), *c) {
                Some(e) => r is Err && r->Err_0@ == e && *final(self) == *old(self),
                None => r is Ok && r->Ok_0 == new_workstream(*c) && workstream_created(*old(self), *final(self), *c),
            },
    {
        require_non_empty(&c.title, "title")?;
        require_non_empty(&c.objective, "objective")?;
        require_non_empty(&c.priority, "priority")?;
        let record = WorkstreamRecord {
            id: c.workstream_id.clone(),
            title: c.title.clone(),
            objective: c.objective.clone(),
            status: c.status,
            priority: c.priority.clone(),
            revision: INITIAL_REVISION,
            origin_node_id: c.metadata.origin_node_id.clone(),
            created_at: c.metadata.issued_at,
            updated_at: c.metadata.issued_at,
            deleted_at: None,
        };
        if self.find_workstream(c.workstream_id.as_str()).is_some() {
            return Err(
                OrcasError::Protocol(
                    cat3("workstream", " `", c.workstream_id.as_str()).concat("` already exists"),
                ),
            );
        }
        let event = AuthorityEvent::WorkstreamCreated { workstream: record.copy() };
        self.push_event(
            &c.metadata,
            AggregateType::Workstream,
            &c.workstream_id,
            INITIAL_REVISION,
            false,
            event,
            fresh_id,
        )?;
        Ok(record)
    }

    /// Edits a workstream at the revision the caller expects.
    pub fn edit_workstream<F: Fn() -> String>(&mut self, c: &EditWorkstream, fresh_id: &F) -> (r: Result<
        WorkstreamRecord,
        OrcasError,
    >)
        requires
            old(self).wf(),
            fresh_id.requires(()),
        ensures
            final(self).wf(),
            match edit_workstream_error(*old(self), *c) {
                Some(e) => r is Err && r->Err_0@ == e && *final(self) == *old(self),
                None => r is Ok && r->Ok_0 == edited_workstream(*old(self), *c) && workstream_edited(*old(self), *final(self), *c),
            },
    {
        if c.changes.is_empty() {
            return Err(
                OrcasError::Protocol(
                    cat3("edit ", "workstream", " requires at least one changed field"),
                ),
            );
        }
        let i = match self.find_workstream(c.workstream_id.as_str()) {
            Some(i) => i,
            None => {
                return Err(
                    OrcasError::Protocol(
                        cat3("unknown ", "workstream", " `").concat(c.workstream_id.as_str()).concat(
                            "`",
                        ),
                    ),
                );
            },
        };
        let current = self.workstreams[i].copy();
        ensure_active("workstream", &current.deleted_at, c.workstream_id.as_str())?;
        ensure_revision(
            "workstream",
            c.workstream_id.as_str(),
            current.revision,
            c.expected_revision,
        )?;
        if current.revision >= MAX_STORED_INTEGER {
            let _ = apply_workstream_patch(current.copy(), &c.changes, current.revision, 0)?;
            return Err(
                OrcasError::Store(
                    owned(
                        "store revision overflow: out of range integral type conversion attempted",
                    ),
                ),
            );
        }
        let next = current.revision + 1;
        let record = apply_workstream_patch(current, &c.changes, next, c.metadata.issued_at)?;
        let event = AuthorityEvent::WorkstreamEdited {
            workstream_id: c.workstream_id.clone(),
            changes: c.changes.copy(),
        };
        self.push_event(
            &c.metadata,
            AggregateType::Workstream,
            &c.workstream_id,
            next,
            false,
            event,
            fresh_id,
        )?;
        Ok(record)
    }
}

/// The record a create-work-unit command makes.
pub open spec fn new_work_unit(c: CreateWorkUnit) -> WorkUnitRecord {
    WorkUnitRecord {
        id: c.work_unit_id,
        workstream_id: c.workstream_id,
        title: c.title,
        task_statement: c.task_statement,
        status: c.status,
        revision: INITIAL_REVISION,
        origin_node_id: c.metadata.origin_node_id,
        created_at: c.metadata.issued_at,
        updated_at: c.metadata.issued_at,
        deleted_at: None,
    }
}

/// Why a create-work-unit command is refused, if it is.
pub open spec fn create_work_unit_error(s: AuthorityState, c: CreateWorkUnit) -> Option<
    OrcasErrorView,
> {
    match ws_pos_in(s.workstreams@, c.workstream_id@) {
        None => Some(OrcasErrorView::Protocol(unknown_message("workstream"@, c.workstream_id@))),
        Some(p) => if s.workstreams@[p].deleted_at is Some {
            Some(OrcasErrorView::Protocol(deleted_message("workstream"@, c.workstream_id@)))
        } else if is_blank(c.title@) {
            Some(OrcasErrorView::Protocol(empty_field_message("title"@)))
        } else if is_blank(c.task_statement@) {
            Some(OrcasErrorView::Protocol(empty_field_message("task_statement"@)))
        } else if wu_pos_in(s.work_units@, c.work_unit_id@) is Some {
            Some(OrcasErrorView::Protocol(exists_message("work unit"@, c.work_unit_id@)))
        } else if s.events.len() >= MAX_STORED_INTEGER {
            Some(OrcasErrorView::Store(log_full_message()))
        } else {
            None
        },
    }
}

/// The error of a record that no longer takes a new revision, or of a full log.
pub open spec fn append_room_error(s: AuthorityState, revision: u64) -> Option<OrcasErrorView> {
    if revision >= MAX_STORED_INTEGER {
        Some(OrcasErrorView::Store(revision_overflow_message()))
    } else if s.events.len() >= MAX_STORED_INTEGER {
        Some(OrcasErrorView::Store(log_full_message()))
    } else {
        None
    }
}

/// Why an edit-work-unit command is refused, if it is.
pub open spec fn edit_work_unit_error(s: AuthorityState, c: EditWorkUnit) -> Option<
    OrcasErrorView,
> {
    if c.changes.spec_is_empty() {
        Some(OrcasErrorView::Protocol(empty_edit_message("work unit"@)))
    } else {
        match wu_pos_in(s.work_units@, c.work_unit_id@) {
            None => Some(OrcasErrorView::Protocol(unknown_message("work unit"@, c.work_unit_id@))),
            Some(i) => {
                let r = s.work_units@[i];
                if r.deleted_at is Some {
                    Some(OrcasErrorView::Protocol(deleted_message("work unit"@, c.work_unit_id@)))
                } else if r.revision != c.expected_revision {
                    Some(
                        OrcasErrorView::Protocol(
                            revision_mismatch_message(
                                "work unit"@,
                                c.work_unit_id@,
                                c.expected_revision,
                                r.revision,
                            ),
                        ),
                    )
                } else if work_unit_patch_error(c.changes) is Some {
                    work_unit_patch_error(c.changes)
                } else {
                    append_room_error(s, r.revision)
                }
            },
        }
    }
}

/// The work unit an accepted edit produces.
pub open spec fn edited_work_unit(s: AuthorityState, c: EditWorkUnit) -> WorkUnitRecord {
    let r = s.work_units@[wu_pos_in(s.work_units@, c.work_unit_id@)->0];
    work_unit_patched(r, c.changes, (r.revision + 1) as u64, c.metadata.issued_at)
}

/// The binding error of giving `id` the upstream thread `upstream`, if another live tracked thread
/// holds it.
pub open spec fn binding_error(s: Seq<TrackedThreadRecord>, upstream: Option<String>, id: Seq<char>) -> Option<
    OrcasErrorView,
> {
    match upstream {
        None => None,
        Some(u) => if binding_taken(s, u@, id) {
            Some(
                OrcasErrorView::Protocol(
                    binding_taken_message(u@, s[binding_holder(s, u@, id)].id@),
                ),
            )
        } else {
            None
        },
    }
}

/// The record a create-tracked-thread command makes.
pub open spec fn new_tracked_thread(c: CreateTrackedThread) -> TrackedThreadRecord {
    TrackedThreadRecord {
        id: c.tracked_thread_id,
        work_unit_id: c.work_unit_id,
        title: c.title,
        notes: c.notes,
        backend_kind: c.backend_kind,
        upstream_thread_id: c.upstream_thread_id,
        binding_state: binding_for(c.upstream_thread_id),
        preferred_cwd: c.preferred_cwd,
        preferred_model: c.preferred_model,
        last_seen_turn_id: None,
        revision: INITIAL_REVISION,
        origin_node_id: c.metadata.origin_node_id,
        created_at: c.metadata.issued_at,
        updated_at: c.metadata.issued_at,
        deleted_at: None,
    }
}

/// Why a create-tracked-thread command is refused, if it is.
pub open spec fn create_tracked_thread_error(s: AuthorityState, c: CreateTrackedThread) -> Option<
    OrcasErrorView,
> {
    match wu_pos_in(s.work_units@, c.work_unit_id@) {
        None => Some(OrcasErrorView::Protocol(unknown_message("work unit"@, c.work_unit_id@))),
        Some(p) => if s.work_units@[p].deleted_at is Some {
            Some(OrcasErrorView::Protocol(deleted_message("work unit"@, c.work_unit_id@)))
        } else if is_blank(c.title@) {
            Some(OrcasErrorView::Protocol(empty_field_message("title"@)))
        } else if tt_pos_in(s.tracked_threads@, c.tracked_thread_id@) is Some {
            Some(OrcasErrorView::Protocol(exists_message("tracked thread"@, c.tracked_thread_id@)))
        } else if binding_error(s.tracked_threads@, c.upstream_thread_id, c.tracked_thread_id@) is Some {
            binding_error(s.tracked_threads@, c.upstream_thread_id, c.tracked_thread_id@)
        } else if s.events.len() >= MAX_STORED_INTEGER {
            Some(OrcasErrorView::Store(log_full_message()))
        } else {
            None
        },
    }
}

/// The tracked thread an accepted edit produces.
pub open spec fn edited_tracked_thread(s: AuthorityState, c: EditTrackedThread) -> TrackedThreadRecord {
    let r = s.tracked_threads@[tt_pos_in(s.tracked_threads@, c.tracked_thread_id@)->0];
    tracked_thread_patched(r, c.changes, (r.revision + 1) as u64, c.metadata.issued_at)
}

/// Why an edit-tracked-thread command is refused, if it is.
pub open spec fn edit_tracked_thread_error(s: AuthorityState, c: EditTrackedThread) -> Option<
    OrcasErrorView,
> {
    if c.changes.spec_is_empty() {
        Some(OrcasErrorView::Protocol(empty_edit_message("tracked thread"@)))
    } else {
        match tt_pos_in(s.tracked_threads@, c.tracked_thread_id@) {
            None => Some(
                OrcasErrorView::Protocol(unknown_message("tracked thread"@, c.tracked_thread_id@)),
            ),
            Some(i) => {
                let r = s.tracked_threads@[i];
                let e = edited_tracked_thread(s, c);
                if r.deleted_at is Some {
                    Some(
                        OrcasErrorView::Protocol(
                            deleted_message("tracked thread"@, c.tracked_thread_id@),
                        ),
                    )
                } else if r.revision != c.expected_revision {
                    Some(
                        OrcasErrorView::Protocol(
                            revision_mismatch_message(
                                "tracked thread"@,
                                c.tracked_thread_id@,
                                c.expected_revision,
                                r.revision,
                            ),
                        ),
                    )
                } else if tracked_thread_patch_error(c.changes) is Some {
                    tracked_thread_patch_error(c.changes)
                } else if binding_error(s.tracked_threads@, e.upstream_thread_id, e.id@) is Some {
                    binding_error(s.tracked_threads@, e.upstream_thread_id, e.id@)
                } else {
                    append_room_error(s, r.revision)
                }
            },
        }
    }
}

impl AuthorityState {
    /// Fails when another live tracked thread than `id` holds the upstream thread.
    fn check_binding(&self, upstream: &Option<String>, id: &str) -> (r: Result<(), OrcasError>)
        requires
            bindings_unique(self.tracked_threads@),
        ensures
            match binding_error(self.tracked_threads@, *upstream, id@) {
                Some(e) => r is Err && r->Err_0@ == e,
                None => r is Ok,
            },
    {
        match upstream {
            None => Ok(()),
            Some(u) => match self.find_binding_holder(u.as_str(), id) {
                None => Ok(()),
                Some(k) => {
                    proof {
                        lemma_binding_holder(self.tracked_threads@, u@, id@, k as int);
                    }
                    Err(
                        OrcasError::Protocol(
                            cat5(
                                "upstream thread `",
                                u.as_str(),
                                "` is already tracked by `",
                                self.tracked_threads[k].id.as_str(),
                                "`",
                            ),
                        ),
                    )
                },
            },
        }
    }

    /// Creates a work unit under a live workstream.
    pub fn create_work_unit<F: Fn() -> String>(&mut self, c: &CreateWorkUnit, fresh_id: &F) -> (r: Result<
        WorkUnitRecord,
        OrcasError,
    >)
        requires
            old(self).wf(),
            fresh_id.requires(()),
        ensures
            final(self).wf(),
            match create_work_unit_error(*old(self), *c) {
                Some(e) => r is Err && r->Err_0@ == e && *final(self) == *old(self),
                None => r is Ok && r->Ok_0 == new_work_unit(*c) && work_unit_created(*old(self), *final(self), *c),
            },
    {
        let p = match self.find_workstream(c.workstream_id.as_str()) {
            Some(p) => p,
            None => {
                return Err(
                    OrcasError::Protocol(
                        cat3("unknown ", "workstream", " `").concat(c.workstream_id.as_str()).concat(
                            "`",
                        ),
                    ),
                );
            },
        };
        ensure_active("workstream", &self.workstreams[p].deleted_at, c.workstream_id.as_str())?;
        require_non_empty(&c.title, "title")?;
        require_non_empty(&c.task_statement, "task_statement")?;
        if self.find_work_unit(c.work_unit_id.as_str()).is_some() {
            return Err(
                OrcasError::Protocol(
                    cat3("work unit", " `", c.work_unit_id.as_str()).concat("` already exists"),
                ),
            );
        }
        let record = WorkUnitRecord {
            id: c.work_unit_id.clone(),
            workstream_id: c.workstream_id.clone(),
            title: c.title.clone(),
            task_statement: c.task_statement.clone(),
            status: c.status,
            revision: INITIAL_REVISION,
            origin_node_id: c.metadata.origin_node_id.clone(),
            created_at: c.metadata.issued_at,
            updated_at: c.metadata.issued_at,
            deleted_at: None,
        };
        let event = AuthorityEvent::WorkUnitCreated { work_unit: record.copy() };
        self.push_event(
            &c.metadata,
            AggregateType::WorkUnit,
            &c.work_unit_id,
            INITIAL_REVISION,
            false,
            event,
            fresh_id,
        )?;
        Ok(record)
    }

    /// Edits a work unit at the revision the caller expects.
    pub fn edit_work_unit<F: Fn() -> String>(&mut self, c: &EditWorkUnit, fresh_id: &F) -> (r: Result<
        WorkUnitRecord,
        OrcasError,
    >)
        requires
            old(self).wf(),
            fresh_id.requires(()),
        ensures
            final(self).wf(),
            match edit_work_unit_error(*old(self), *c) {
                Some(e) => r is Err && r->Err_0@ == e && *final(self) == *old(self),
                None => r is Ok && r->Ok_0 == edited_work_unit(*old(self), *c) && work_unit_edited(*old(self), *final(self), *c),
            },
    {
        if c.changes.is_empty() {
            return Err(
                OrcasError::Protocol(
                    cat3("edit ", "work unit", " requires at least one changed field"),
                ),
            );
        }
        let i = match self.find_work_unit(c.work_unit_id.as_str()) {
            Some(i) => i,
            None => {
                return Err(
                    OrcasError::Protocol(
                        cat3("unknown ", "work unit", " `").concat(c.work_unit_id.as_str()).concat(
                            "`",
                        ),
                    ),
                );
            },
        };
        let current = self.work_units[i].copy();
        ensure_active("work unit", &current.deleted_at, c.work_unit_id.as_str())?;
        ensure_revision("work unit", c.work_unit_id.as_str(), current.revision, c.expected_revision)?;
        if current.revision >= MAX_STORED_INTEGER {
            let _ = apply_work_unit_patch(current.copy(), &c.changes, current.revision, 0)?;
            return Err(
                OrcasError::Store(
                    owned(
                        "store revision overflow: out of range integral type conversion attempted",
                    ),
                ),
            );
        }
        let next = current.revision + 1;
        let record = apply_work_unit_patch(current, &c.changes, next, c.metadata.issued_at)?;
        let event = AuthorityEvent::WorkUnitEdited {
            work_unit_id: c.work_unit_id.clone(),
            changes: c.changes.copy(),
        };
        self.push_event(&c.metadata, AggregateType::WorkUnit, &c.work_unit_id, next, false, event, fresh_id)?;
        Ok(record)
    }

    /// Creates a tracked thread under a live work unit; a given upstream thread must not be
    /// tracked by another live tracked thread.
    pub fn create_tracked_thread<F: Fn() -> String>(&mut self, c: &CreateTrackedThread, fresh_id: &F) -> (r: Result<
        TrackedThreadRecord,
        OrcasError,
    >)
        requires
            old(self).wf(),
            fresh_id.requires(()),
        ensures
            final(self).wf(),
            match create_tracked_thread_error(*old(self), *c) {
                Some(e) => r is Err && r->Err_0@ == e && *final(self) == *old(self),
                None => r is Ok && r->Ok_0 == new_tracked_thread(*c) && tracked_thread_created(*old(self), *final(self), *c),
            },
    {
        let p = match self.find_work_unit(c.work_unit_id.as_str()) {
            Some(p) => p,
            None => {
                return Err(
                    OrcasError::Protocol(
                        cat3("unknown ", "work unit", " `").concat(c.work_unit_id.as_str()).concat(
                            "`",
                        ),
                    ),
                );
            },
        };
        ensure_active("work unit", &self.work_units[p].deleted_at, c.work_unit_id.as_str())?;
        require_non_empty(&c.title, "title")?;
        if self.find_tracked_thread(c.tracked_thread_id.as_str()).is_some() {
            return Err(
                OrcasError::Protocol(
                    cat3("tracked thread", " `", c.tracked_thread_id.as_str()).concat(
                        "` already exists",
                    ),
                ),
            );
        }
        self.check_binding(&c.upstream_thread_id, c.tracked_thread_id.as_str())?;
        let record = TrackedThreadRecord {
            id: c.tracked_thread_id.clone(),
            work_unit_id: c.work_unit_id.clone(),
            title: c.title.clone(),
            notes: copy_opt_string(&c.notes),
            backend_kind: c.backend_kind,
            upstream_thread_id: copy_opt_string(&c.upstream_thread_id),
            binding_state: if c.upstream_thread_id.is_some() {
                TrackedThreadBindingState::Bound
            } else {
                TrackedThreadBindingState::Unbound
            },
            preferred_cwd: copy_opt_string(&c.preferred_cwd),
            preferred_model: copy_opt_string(&c.preferred_model),
            last_seen_turn_id: None,
            revision: INITIAL_REVISION,
            origin_node_id: c.metadata.origin_node_id.clone(),
            created_at: c.metadata.issued_at,
            updated_at: c.metadata.issued_at,
            deleted_at: None,
        };
        let event = AuthorityEvent::TrackedThreadCreated { tracked_thread: record.copy() };
        self.push_event(
            &c.metadata,
            AggregateType::TrackedThread,
            &c.tracked_thread_id,
            INITIAL_REVISION,
            false,
            event,
            fresh_id,
        )?;
        Ok(record)
    }

    /// Edits a tracked thread at the revision the caller expects; a new upstream thread must not
    /// be tracked by another live tracked thread.
    pub fn edit_tracked_thread<F: Fn() -> String>(&mut self, c: &EditTrackedThread, fresh_id: &F) -> (r: Result<
        TrackedThreadRecord,
        OrcasError,
    >)
        requires
            old(self).wf(),
            fresh_id.requires(()),
        ensures
            final(self).wf(),
            match edit_tracked_thread_error(*old(self), *c) {
                Some(e) => r is Err && r->Err_0@ == e && *final(self) == *old(self),
                None => r is Ok && r->Ok_0 == edited_tracked_thread(*old(self), *c) && tracked_thread_edited(*old(self), *final(self), *c),
            },
    {
        if c.changes.is_empty() {
            return Err(
                OrcasError::Protocol(
                    cat3("edit ", "tracked thread", " requires at least one changed field"),
                ),
            );
        }
        let i = match self.find_tracked_thread(c.tracked_thread_id.as_str()) {
            Some(i) => i,
            None => {
                return Err(
                    OrcasError::Protocol(
                        cat3("unknown ", "tracked thread", " `").concat(
                            c.tracked_thread_id.as_str(),
                        ).concat("`"),
                    ),
                );
            },
        };
        let current = self.tracked_threads[i].copy();
        ensure_active("tracked thread", &current.deleted_at, c.tracked_thread_id.as_str())?;
        ensure_revision(
            "tracked thread",
            c.tracked_thread_id.as_str(),
            current.revision,
            c.expected_revision,
        )?;
        let next = if current.revision >= MAX_STORED_INTEGER {
            current.revision
        } else {
            current.revision + 1
        };
        let record = apply_tracked_thread_patch(current.copy(), &c.changes, next, c.metadata.issued_at)?;
        self.check_binding(&record.upstream_thread_id, record.id.as_str())?;
        if current.revision >= MAX_STORED_INTEGER {
            return Err(
                OrcasError::Store(
                    owned(
                        "store revision overflow: out of range integral type conversion attempted",
                    ),
                ),
            );
        }
        let event = AuthorityEvent::TrackedThreadEdited {
            tracked_thread_id: c.tracked_thread_id.clone(),
            changes: c.changes.copy(),
        };
        self.push_event(
            &c.metadata,
            AggregateType::TrackedThread,
            &c.tracked_thread_id,
            next,
            false,
            event,
            fresh_id,
        )?;
        Ok(record)
    }
}

} // verus!
