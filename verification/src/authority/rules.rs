use vstd::prelude::*;

use super::types::{TrackedThreadPatch, TrackedThreadRecord, WorkUnitPatch, WorkUnitRecord, WorkstreamPatch, WorkstreamRecord};
use crate::model::{OrcasError, OrcasErrorView};
use crate::model::{copy_opt_string, TrackedThreadBindingState};
use crate::text::{cat2, cat3, cat5, decimal, decimal_string, is_blank, str_is_blank};

verus! {

/// Whether a field after a patch holds the requested value, or its old value when none was
/// requested.
pub open spec fn takes<T>(requested: Option<T>, new: T, old: T) -> bool {
    match requested {
        Some(v) => new == v,
        None => new == old,
    }
}

/// A work unit after an edit: each field requested takes its value, the others and the work
/// unit's identity stay, and the revision and time are the new ones.
pub open spec fn work_unit_fields_follow(old: WorkUnitRecord, p: WorkUnitPatch, new: WorkUnitRecord, revision: u64, at: i64) -> bool {
    &&& takes(p.title, new.title, old.title)
    &&& takes(p.task_statement, new.task_statement, old.task_statement)
    &&& takes(p.status, new.status, old.status)
    &&& new.revision == revision
    &&& new.updated_at == at
    &&& new.id == old.id
    &&& new.workstream_id == old.workstream_id
    &&& new.origin_node_id == old.origin_node_id
    &&& new.created_at == old.created_at
    &&& new.deleted_at == old.deleted_at
}

/// A workstream after an edit, field by field.
pub open spec fn workstream_fields_follow(old: WorkstreamRecord, p: WorkstreamPatch, new: WorkstreamRecord, revision: u64, at: i64) -> bool {
    &&& takes(p.title, new.title, old.title)
    &&& takes(p.objective, new.objective, old.objective)
    &&& takes(p.status, new.status, old.status)
    &&& takes(p.priority, new.priority, old.priority)
    &&& new.revision == revision
    &&& new.updated_at == at
    &&& new.id == old.id
    &&& new.origin_node_id == old.origin_node_id
    &&& new.created_at == old.created_at
    &&& new.deleted_at == old.deleted_at
}

/// A tracked thread after an edit, field by field: a new upstream thread rebinds it (bound with
/// one, unbound without) unless the patch names the binding state itself.
pub open spec fn tracked_thread_fields_follow(old: TrackedThreadRecord, p: TrackedThreadPatch, new: TrackedThreadRecord, revision: u64, at: i64) -> bool {
    &&& takes(p.title, new.title, old.title)
    &&& takes(p.notes, new.notes, old.notes)
    &&& takes(p.backend_kind, new.backend_kind, old.backend_kind)
    &&& takes(p.upstream_thread_id, new.upstream_thread_id, old.upstream_thread_id)
    &&& (p.binding_state is Some ==> new.binding_state == p.binding_state->0)
    &&& (p.binding_state is None && p.upstream_thread_id is Some ==> (new.binding_state == TrackedThreadBindingState::Bound
        <==> new.upstream_thread_id is Some) && (new.binding_state == TrackedThreadBindingState::Bound
        || new.binding_state == TrackedThreadBindingState::Unbound))
    &&& (p.binding_state is None && p.upstream_thread_id is None ==> new.binding_state == old.binding_state)
    &&& takes(p.preferred_cwd, new.preferred_cwd, old.preferred_cwd)
    &&& takes(p.preferred_model, new.preferred_model, old.preferred_model)
    &&& takes(p.last_seen_turn_id, new.last_seen_turn_id, old.last_seen_turn_id)
    &&& new.revision == revision
    &&& new.updated_at == at
    &&& new.id == old.id
    &&& new.work_unit_id == old.work_unit_id
    &&& new.origin_node_id == old.origin_node_id
    &&& new.created_at == old.created_at
    &&& new.deleted_at == old.deleted_at
}

/// `"<field> cannot be empty"`.
pub open spec fn empty_field_message(field: Seq<char>) -> Seq<char> {
    field + " cannot be empty"@
}

/// `"<kind> `<id>` has already been deleted locally"`.
pub open spec fn deleted_message(kind: Seq<char>, id: Seq<char>) -> Seq<char> {
    kind + " `"@ + id + "` has already been deleted locally"@
}

/// `"<kind> `<id>` revision mismatch: expected <expected>, current <current>"`.
pub open spec fn revision_mismatch_message(
    kind: Seq<char>,
    id: Seq<char>,
    expected: u64,
    current: u64,
) -> Seq<char> {
    kind + " `"@ + id + "` revision mismatch: expected "@ + decimal(expected as nat) + ", current "@
        + decimal(current as nat)
}

/// `"unknown <kind> `<id>`"`.
pub open spec fn unknown_message(kind: Seq<char>, id: Seq<char>) -> Seq<char> {
    "unknown "@ + kind + " `"@ + id + "`"@
}

/// `"<kind> `<id>` already exists"`.
pub open spec fn exists_message(kind: Seq<char>, id: Seq<char>) -> Seq<char> {
    kind + " `"@ + id + "` already exists"@
}

/// `"edit <kind> requires at least one changed field"`.
pub open spec fn empty_edit_message(kind: Seq<char>) -> Seq<char> {
    "edit "@ + kind + " requires at least one changed field"@
}

/// `"upstream thread `<upstream>` is already tracked by `<holder>`"`.
pub open spec fn binding_taken_message(upstream: Seq<char>, holder: Seq<char>) -> Seq<char> {
    "upstream thread `"@ + upstream + "` is already tracked by `"@ + holder + "`"@
}

/// The message of a revision that no longer fits the store.
pub open spec fn revision_overflow_message() -> Seq<char> {
    "store revision overflow: out of range integral type conversion attempted"@
}

/// Fails with `"<field> cannot be empty"` when the value is blank, else hands it back.
pub fn require_non_empty(value: &String, field: &str) -> (r: Result<(), OrcasError>)
    ensures
        is_blank(value@) ==> r is Err && r->Err_0@ == OrcasErrorView::Protocol(
            empty_field_message(field@),
        ),
        !is_blank(value@) ==> r is Ok,
{
    if str_is_blank(value.as_str()) {
        Err(OrcasError::Protocol(cat2(field, " cannot be empty")))
    } else {
        Ok(())
    }
}

/// Fails when the record has been deleted.
pub fn ensure_active(kind: &str, deleted_at: &Option<i64>, id: &str) -> (r: Result<
    (),
    OrcasError,
>)
    ensures
        deleted_at.is_some() ==> r is Err && r->Err_0@ == OrcasErrorView::Protocol(
            deleted_message(kind@, id@),
        ),
        deleted_at.is_none() ==> r is Ok,
{
    if deleted_at.is_some() {
        Err(OrcasError::Protocol(cat3(kind, " `", id).concat("` has already been deleted locally")))
    } else {
        Ok(())
    }
}

/// Fails when the caller's expected revision is not the current one.
pub fn ensure_revision(kind: &str, id: &str, current: u64, expected: u64) -> (r: Result<
    (),
    OrcasError,
>)
    ensures
        current != expected ==> r is Err && r->Err_0@ == OrcasErrorView::Protocol(
            revision_mismatch_message(kind@, id@, expected, current),
        ),
        current == expected ==> r is Ok,
{
    if current != expected {
        let e = decimal_string(expected);
        let c = decimal_string(current);
        let head = cat5(kind, " `", id, "` revision mismatch: expected ", e.as_str());
        Err(OrcasError::Protocol(cat3(head.as_str(), ", current ", c.as_str())))
    } else {
        Ok(())
    }
}

/// The first blank field a workstream patch would write, in the order title, objective, priority.
pub open spec fn workstream_patch_error(p: WorkstreamPatch) -> Option<OrcasErrorView> {
    if p.title is Some && is_blank(p.title->0@) {
        Some(OrcasErrorView::Protocol(empty_field_message("title"@)))
    } else if p.objective is Some && is_blank(p.objective->0@) {
        Some(OrcasErrorView::Protocol(empty_field_message("objective"@)))
    } else if p.priority is Some && is_blank(p.priority->0@) {
        Some(OrcasErrorView::Protocol(empty_field_message("priority"@)))
    } else {
        None
    }
}

/// A workstream with a patch applied at a new revision and time.
pub open spec fn workstream_patched(
    r: WorkstreamRecord,
    p: WorkstreamPatch,
    revision: u64,
    at: i64,
) -> WorkstreamRecord {
    WorkstreamRecord {
        title: if p.title is Some {
            p.title->0
        } else {
            r.title
        },
        objective: if p.objective is Some {
            p.objective->0
        } else {
            r.objective
        },
        status: if p.status is Some {
            p.status->0
        } else {
            r.status
        },
        priority: if p.priority is Some {
            p.priority->0
        } else {
            r.priority
        },
        revision: revision,
        updated_at: at,
        ..r
    }
}

/// Applies a workstream patch; a blank text field is refused.
pub fn apply_workstream_patch(
    current: WorkstreamRecord,
    changes: &WorkstreamPatch,
    revision: u64,
    updated_at: i64,
) -> (r: Result<WorkstreamRecord, OrcasError>)
    ensures
        match workstream_patch_error(*changes) {
            Some(e) => r is Err && r->Err_0@ == e,
            None => r is Ok && r->Ok_0 == workstream_patched(current, *changes, revision, updated_at),
        },
        r is Ok ==> workstream_fields_follow(current, *changes, r->Ok_0, revision, updated_at),
{
    let mut current = current;
    if let Some(title) = &changes.title {
        require_non_empty(title, "title")?;
        current.title = title.clone();
    }
    if let Some(objective) = &changes.objective {
        require_non_empty(objective, "objective")?;
        current.objective = objective.clone();
    }
    if let Some(status) = changes.status {
        current.status = status;
    }
    if let Some(priority) = &changes.priority {
        require_non_empty(priority, "priority")?;
        current.priority = priority.clone();
    }
    current.revision = revision;
    current.updated_at = updated_at;
    Ok(current)
}

/// The first blank field a work-unit patch would write, in the order title, task statement.
pub open spec fn work_unit_patch_error(p: WorkUnitPatch) -> Option<OrcasErrorView> {
    if p.title is Some && is_blank(p.title->0@) {
        Some(OrcasErrorView::Protocol(empty_field_message("title"@)))
    } else if p.task_statement is Some && is_blank(p.task_statement->0@) {
        Some(OrcasErrorView::Protocol(empty_field_message("task_statement"@)))
    } else {
        None
    }
}

/// A work unit with a patch applied at a new revision and time.
pub open spec fn work_unit_patched(
    r: WorkUnitRecord,
    p: WorkUnitPatch,
    revision: u64,
    at: i64,
) -> WorkUnitRecord {
    WorkUnitRecord {
        title: if p.title is Some {
            p.title->0
        } else {
            r.title
        },
        task_statement: if p.task_statement is Some {
            p.task_statement->0
        } else {
            r.task_statement
        },
        status: if p.status is Some {
            p.status->0
        } else {
            r.status
        },
        revision: revision,
        updated_at: at,
        ..r
    }
}

/// Applies a work-unit patch; a blank text field is refused.
pub fn apply_work_unit_patch(
    current: WorkUnitRecord,
    changes: &WorkUnitPatch,
    revision: u64,
    updated_at: i64,
) -> (r: Result<WorkUnitRecord, OrcasError>)
    ensures
        match work_unit_patch_error(*changes) {
            Some(e) => r is Err && r->Err_0@ == e,
            None => r is Ok && r->Ok_0 == work_unit_patched(current, *changes, revision, updated_at),
        },
        r is Ok ==> work_unit_fields_follow(current, *changes, r->Ok_0, revision, updated_at),
{
    let mut current = current;
    if let Some(title) = &changes.title {
        require_non_empty(title, "title")?;
        current.title = title.clone();
    }
    if let Some(task_statement) = &changes.task_statement {
        require_non_empty(task_statement, "task_statement")?;
        current.task_statement = task_statement.clone();
    }
    if let Some(status) = changes.status {
        current.status = status;
    }
    current.revision = revision;
    current.updated_at = updated_at;
    Ok(current)
}

/// The error a tracked-thread patch meets: a blank title.
pub open spec fn tracked_thread_patch_error(p: TrackedThreadPatch) -> Option<OrcasErrorView> {
    if p.title is Some && is_blank(p.title->0@) {
        Some(OrcasErrorView::Protocol(empty_field_message("title"@)))
    } else {
        None
    }
}

/// The binding state that follows from whether an upstream thread is set.
pub open spec fn binding_for(upstream: Option<String>) -> TrackedThreadBindingState {
    if upstream is Some {
        TrackedThreadBindingState::Bound
    } else {
        TrackedThreadBindingState::Unbound
    }
}

/// A tracked thread with a patch applied at a new revision and time. Setting the upstream thread
/// rebinds the thread unless the patch names a binding state itself.
pub open spec fn tracked_thread_patched(
    r: TrackedThreadRecord,
    p: TrackedThreadPatch,
    revision: u64,
    at: i64,
) -> TrackedThreadRecord {
    let upstream = if p.upstream_thread_id is Some {
        p.upstream_thread_id->0
    } else {
        r.upstream_thread_id
    };
    TrackedThreadRecord {
        title: if p.title is Some {
            p.title->0
        } else {
            r.title
        },
        notes: if p.notes is Some {
            p.notes->0
        } else {
            r.notes
        },
        backend_kind: if p.backend_kind is Some {
            p.backend_kind->0
        } else {
            r.backend_kind
        },
        upstream_thread_id: upstream,
        binding_state: if p.binding_state is Some {
            p.binding_state->0
        } else if p.upstream_thread_id is Some {
            binding_for(upstream)
        } else {
            r.binding_state
        },
        preferred_cwd: if p.preferred_cwd is Some {
            p.preferred_cwd->0
        } else {
            r.preferred_cwd
        },
        preferred_model: if p.preferred_model is Some {
            p.preferred_model->0
        } else {
            r.preferred_model
        },
        last_seen_turn_id: if p.last_seen_turn_id is Some {
            p.last_seen_turn_id->0
        } else {
            r.last_seen_turn_id
        },
        revision: revision,
        updated_at: at,
        ..r
    }
}

/// Applies a tracked-thread patch; a blank title is refused.
pub fn apply_tracked_thread_patch(
    current: TrackedThreadRecord,
    changes: &TrackedThreadPatch,
    revision: u64,
    updated_at: i64,
) -> (r: Result<TrackedThreadRecord, OrcasError>)
    ensures
        match tracked_thread_patch_error(*changes) {
            Some(e) => r is Err && r->Err_0@ == e,
            None => r is Ok && r->Ok_0 == tracked_thread_patched(
                current,
                *changes,
                revision,
                updated_at,
            ),
        },
        r is Ok ==> tracked_thread_fields_follow(current, *changes, r->Ok_0, revision, updated_at),
{
    let mut current = current;
    if let Some(title) = &changes.title {
        require_non_empty(title, "title")?;
        current.title = title.clone();
    }
    if let Some(notes) = &changes.notes {
        current.notes = copy_opt_string(notes);
    }
    if let Some(backend_kind) = changes.backend_kind {
        current.backend_kind = backend_kind;
    }
    if let Some(upstream_thread_id) = &changes.upstream_thread_id {
        current.upstream_thread_id = copy_opt_string(upstream_thread_id);
        current.binding_state = if current.upstream_thread_id.is_some() {
            TrackedThreadBindingState::Bound
        } else {
            TrackedThreadBindingState::Unbound
        };
    }
    if let Some(binding_state) = changes.binding_state {
        current.binding_state = binding_state;
    }
    if let Some(preferred_cwd) = &changes.preferred_cwd {
        current.preferred_cwd = copy_opt_string(preferred_cwd);
    }
    if let Some(preferred_model) = &changes.preferred_model {
        current.preferred_model = copy_opt_string(preferred_model);
    }
    if let Some(last_seen_turn_id) = &changes.last_seen_turn_id {
        current.last_seen_turn_id = copy_opt_string(last_seen_turn_id);
    }
    current.revision = revision;
    current.updated_at = updated_at;
    Ok(current)
}

/// Patching a work unit sets exactly the fields the patch names, keeps the others and the unit's
/// identity, and stamps the new revision and time; it is refused exactly when a text field it
/// sets is blank.
pub proof fn lemma_work_unit_patch(r: WorkUnitRecord, p: WorkUnitPatch, revision: u64, at: i64)
    ensures
        work_unit_fields_follow(r, p, work_unit_patched(r, p, revision, at), revision, at),
        work_unit_patch_error(p) is Some <==> ((p.title is Some && is_blank(p.title->0@))
            || (p.task_statement is Some && is_blank(p.task_statement->0@))),
{
}

/// Patching a workstream sets exactly the fields the patch names, keeps the others and its
/// identity, and stamps the new revision and time; it is refused exactly when a text field it
/// sets is blank.
pub proof fn lemma_workstream_patch(r: WorkstreamRecord, p: WorkstreamPatch, revision: u64, at: i64)
    ensures
        workstream_fields_follow(r, p, workstream_patched(r, p, revision, at), revision, at),
        workstream_patch_error(p) is Some <==> ((p.title is Some && is_blank(p.title->0@))
            || (p.objective is Some && is_blank(p.objective->0@))
            || (p.priority is Some && is_blank(p.priority->0@))),
{
}

/// Patching a tracked thread sets exactly the fields the patch names, rebinds it when only its
/// upstream thread changes, keeps the others and its identity, and stamps the new revision and
/// time; it is refused exactly when it sets a blank title.
pub proof fn lemma_tracked_thread_patch(r: TrackedThreadRecord, p: TrackedThreadPatch, revision: u64, at: i64)
    ensures
        tracked_thread_fields_follow(r, p, tracked_thread_patched(r, p, revision, at), revision, at),
        tracked_thread_patch_error(p) is Some <==> (p.title is Some && is_blank(p.title->0@)),
{
}

} // verus!
