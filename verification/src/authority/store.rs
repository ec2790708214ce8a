use vstd::prelude::*;

use super::rules::{
    apply_tracked_thread_patch, apply_work_unit_patch, apply_workstream_patch,
    revision_overflow_message, tracked_thread_patch_error, tracked_thread_patched,
    work_unit_patch_error, work_unit_patched, workstream_patch_error, workstream_patched,
};
use super::types::{AuthorityEvent, AuthorityEventEnvelope, CommandReceipt, StoredAuthorityEvent, TrackedThreadRecord, WorkUnitRecord, WorkstreamRecord, MAX_STORED_INTEGER};
use crate::model::{OrcasError, OrcasErrorView};
use crate::text::{cat3, owned, str_eq};

verus! {

/// The authority event store: the event log, the command receipts, and the current projection of
/// the workstream / work unit / tracked thread hierarchy that the log describes.
#[derive(Debug)]
pub struct AuthorityState {
    pub workstreams: Vec<WorkstreamRecord>,
    pub work_units: Vec<WorkUnitRecord>,
    pub tracked_threads: Vec<TrackedThreadRecord>,
    pub events: Vec<StoredAuthorityEvent>,
    pub receipts: Vec<CommandReceipt>,
    pub last_applied_sequence: u64,
}

/// The three projection tables, for contracts.
pub ghost struct Tables {
    pub workstreams: Seq<WorkstreamRecord>,
    pub work_units: Seq<WorkUnitRecord>,
    pub tracked_threads: Seq<TrackedThreadRecord>,
}

/// Whether two tracked threads are both live and bound to the same upstream thread.
pub open spec fn same_live_binding(a: TrackedThreadRecord, b: TrackedThreadRecord) -> bool {
    &&& a.deleted_at is None
    &&& b.deleted_at is None
    &&& a.upstream_thread_id is Some
    &&& b.upstream_thread_id is Some
    &&& a.upstream_thread_id->0@ == b.upstream_thread_id->0@
}

/// Position of the record with an id in a table.
pub open spec fn ws_pos_in(s: Seq<WorkstreamRecord>, id: Seq<char>) -> Option<int> {
    if exists|i: int| 0 <= i < s.len() && (#[trigger] s[i]).id@ == id {
        Some(choose|i: int| 0 <= i < s.len() && (#[trigger] s[i]).id@ == id)
    } else {
        None
    }
}

pub open spec fn wu_pos_in(s: Seq<WorkUnitRecord>, id: Seq<char>) -> Option<int> {
    if exists|i: int| 0 <= i < s.len() && (#[trigger] s[i]).id@ == id {
        Some(choose|i: int| 0 <= i < s.len() && (#[trigger] s[i]).id@ == id)
    } else {
        None
    }
}

pub open spec fn tt_pos_in(s: Seq<TrackedThreadRecord>, id: Seq<char>) -> Option<int> {
    if exists|i: int| 0 <= i < s.len() && (#[trigger] s[i]).id@ == id {
        Some(choose|i: int| 0 <= i < s.len() && (#[trigger] s[i]).id@ == id)
    } else {
        None
    }
}

/// Ids are unique within each table.
pub open spec fn ws_unique(s: Seq<WorkstreamRecord>) -> bool {
    forall|i: int, j: int|
        #![trigger s[i], s[j]]
        0 <= i < s.len() && 0 <= j < s.len() && i != j ==> s[i].id@ != s[j].id@
}

pub open spec fn wu_unique(s: Seq<WorkUnitRecord>) -> bool {
    forall|i: int, j: int|
        #![trigger s[i], s[j]]
        0 <= i < s.len() && 0 <= j < s.len() && i != j ==> s[i].id@ != s[j].id@
}

pub open spec fn tt_unique(s: Seq<TrackedThreadRecord>) -> bool {
    forall|i: int, j: int|
        #![trigger s[i], s[j]]
        0 <= i < s.len() && 0 <= j < s.len() && i != j ==> s[i].id@ != s[j].id@
}

/// At most one live tracked thread holds any upstream thread.
pub open spec fn bindings_unique(s: Seq<TrackedThreadRecord>) -> bool {
    forall|i: int, j: int|
        #![trigger s[i], s[j]]
        0 <= i < s.len() && 0 <= j < s.len() && i != j ==> !same_live_binding(s[i], s[j])
}

/// What the store's schema guarantees of the projection tables: unique ids, parents that exist,
/// unique live upstream bindings, and revisions that fit the store.
pub open spec fn tables_wf(t: Tables) -> bool {
    &&& ws_unique(t.workstreams)
    &&& wu_unique(t.work_units)
    &&& tt_unique(t.tracked_threads)
    &&& bindings_unique(t.tracked_threads)
    &&& forall|i: int|
        0 <= i < t.workstreams.len() ==> (#[trigger] t.workstreams[i]).revision
            <= MAX_STORED_INTEGER
    &&& forall|i: int|
        0 <= i < t.work_units.len() ==> (#[trigger] t.work_units[i]).revision <= MAX_STORED_INTEGER
            && ws_pos_in(t.workstreams, t.work_units[i].workstream_id@) is Some
    &&& forall|i: int|
        0 <= i < t.tracked_threads.len() ==> (#[trigger] t.tracked_threads[i]).revision
            <= MAX_STORED_INTEGER && wu_pos_in(t.work_units, t.tracked_threads[i].work_unit_id@)
            is Some
}

/// Whether a live tracked thread other than `id` holds `upstream`.
pub open spec fn binding_taken(s: Seq<TrackedThreadRecord>, upstream: Seq<char>, id: Seq<char>) -> bool {
    exists|k: int|
        0 <= k < s.len() && (#[trigger] s[k]).deleted_at is None && s[k].upstream_thread_id is Some
            && s[k].upstream_thread_id->0@ == upstream && s[k].id@ != id
}

/// The live tracked thread, other than `id`, that holds `upstream` (meaningful when one does).
pub open spec fn binding_holder(s: Seq<TrackedThreadRecord>, upstream: Seq<char>, id: Seq<char>) -> int {
    choose|k: int|
        0 <= k < s.len() && (#[trigger] s[k]).deleted_at is None && s[k].upstream_thread_id is Some
            && s[k].upstream_thread_id->0@ == upstream && s[k].id@ != id
}

/// Under unique bindings, any holder found is the holder.
pub proof fn lemma_binding_holder(s: Seq<TrackedThreadRecord>, upstream: Seq<char>, id: Seq<char>, k: int)
    requires
        bindings_unique(s),
        0 <= k < s.len(),
        s[k].deleted_at is None,
        s[k].upstream_thread_id is Some,
        s[k].upstream_thread_id->0@ == upstream,
        s[k].id@ != id,
    ensures
        binding_taken(s, upstream, id),
        binding_holder(s, upstream, id) == k,
{
    assert(binding_taken(s, upstream, id));
    let h = binding_holder(s, upstream, id);
    if h != k {
        assert(same_live_binding(s[h], s[k]));
    }
}

/// Whether a record would clash with another live binding in the table.
pub open spec fn record_binding_clash(s: Seq<TrackedThreadRecord>, t: TrackedThreadRecord) -> bool {
    t.deleted_at is None && t.upstream_thread_id is Some && binding_taken(
        s,
        t.upstream_thread_id->0@,
        t.id@,
    )
}

/// A table with a record inserted or, when its id is present, replaced.
pub open spec fn wu_upsert(s: Seq<WorkUnitRecord>, r: WorkUnitRecord) -> Seq<WorkUnitRecord> {
    match wu_pos_in(s, r.id@) {
        Some(i) => s.update(i, r),
        None => s.push(r),
    }
}

pub open spec fn tt_upsert(s: Seq<TrackedThreadRecord>, r: TrackedThreadRecord) -> Seq<
    TrackedThreadRecord,
> {
    match tt_pos_in(s, r.id@) {
        Some(i) => s.update(i, r),
        None => s.push(r),
    }
}

pub open spec fn unique_ws_message() -> Seq<char> {
    "UNIQUE constraint failed: workstreams.id"@
}

pub open spec fn unique_binding_message() -> Seq<char> {
    "UNIQUE constraint failed: tracked_threads.upstream_thread_id"@
}

pub open spec fn foreign_key_message() -> Seq<char> {
    "FOREIGN KEY constraint failed"@
}

pub open spec fn log_full_message() -> Seq<char> {
    "database or disk is full"@
}

pub open spec fn projection_missing_message(prefix: Seq<char>, id: Seq<char>) -> Seq<char> {
    prefix + id + "`"@
}

/// A workstream marked deleted at a revision and time.
pub open spec fn ws_deleted(r: WorkstreamRecord, revision: u64, at: i64) -> WorkstreamRecord {
    WorkstreamRecord { deleted_at: Some(at), updated_at: at, revision: revision, ..r }
}

pub open spec fn wu_deleted(r: WorkUnitRecord, revision: u64, at: i64) -> WorkUnitRecord {
    WorkUnitRecord { deleted_at: Some(at), updated_at: at, revision: revision, ..r }
}

pub open spec fn tt_deleted(r: TrackedThreadRecord, revision: u64, at: i64) -> TrackedThreadRecord {
    TrackedThreadRecord { deleted_at: Some(at), updated_at: at, revision: revision, ..r }
}

/// What applying one event does to the projection tables: the new tables, or the error the store
/// meets.
pub open spec fn project_event(t: Tables, env: AuthorityEventEnvelope) -> Result<
    Tables,
    OrcasErrorView,
> {
    project(t, env.metadata.aggregate_version, env.metadata.occurred_at, env.event)
}

/// What applying an event at an aggregate version and time does to the projection tables.
pub open spec fn project(t: Tables, version: u64, at: i64, event: AuthorityEvent) -> Result<
    Tables,
    OrcasErrorView,
> {
    if version > MAX_STORED_INTEGER {
        Err(OrcasErrorView::Store(revision_overflow_message()))
    } else {
        match event {
            AuthorityEvent::WorkstreamCreated { workstream } => {
                if workstream.revision > MAX_STORED_INTEGER {
                    Err(OrcasErrorView::Store(revision_overflow_message()))
                } else if ws_pos_in(t.workstreams, workstream.id@) is Some {
                    Err(OrcasErrorView::Store(unique_ws_message()))
                } else {
                    Ok(Tables { workstreams: t.workstreams.push(workstream), ..t })
                }
            },
            AuthorityEvent::WorkstreamEdited { workstream_id, changes } => {
                match ws_pos_in(t.workstreams, workstream_id@) {
                    None => Err(
                        OrcasErrorView::Store(
                            projection_missing_message("projection missing workstream `"@, workstream_id@),
                        ),
                    ),
                    Some(i) => match workstream_patch_error(changes) {
                        Some(e) => Err(e),
                        None => Ok(
                            Tables {
                                workstreams: t.workstreams.update(
                                    i,
                                    workstream_patched(t.workstreams[i], changes, version, at),
                                ),
                                ..t
                            },
                        ),
                    },
                }
            },
            AuthorityEvent::WorkstreamDeleted { workstream_id } => {
                match ws_pos_in(t.workstreams, workstream_id@) {
                    None => Err(
                        OrcasErrorView::Store(
                            projection_missing_message("projection missing workstream `"@, workstream_id@),
                        ),
                    ),
                    Some(i) => Ok(
                        Tables {
                            workstreams: t.workstreams.update(
                                i,
                                ws_deleted(t.workstreams[i], version, at),
                            ),
                            ..t
                        },
                    ),
                }
            },
            AuthorityEvent::WorkUnitCreated { work_unit } => {
                if work_unit.revision > MAX_STORED_INTEGER {
                    Err(OrcasErrorView::Store(revision_overflow_message()))
                } else if ws_pos_in(t.workstreams, work_unit.workstream_id@) is None {
                    Err(OrcasErrorView::Store(foreign_key_message()))
                } else {
                    Ok(Tables { work_units: wu_upsert(t.work_units, work_unit), ..t })
                }
            },
            AuthorityEvent::WorkUnitEdited { work_unit_id, changes } => {
                match wu_pos_in(t.work_units, work_unit_id@) {
                    None => Err(
                        OrcasErrorView::Store(
                            projection_missing_message("projection missing work unit `"@, work_unit_id@),
                        ),
                    ),
                    Some(i) => match work_unit_patch_error(changes) {
                        Some(e) => Err(e),
                        None => Ok(
                            Tables {
                                work_units: t.work_units.update(
                                    i,
                                    work_unit_patched(t.work_units[i], changes, version, at),
                                ),
                                ..t
                            },
                        ),
                    },
                }
            },
            AuthorityEvent::WorkUnitDeleted { work_unit_id } => {
                match wu_pos_in(t.work_units, work_unit_id@) {
                    None => Err(
                        OrcasErrorView::Store(
                            projection_missing_message("projection missing work unit `"@, work_unit_id@),
                        ),
                    ),
                    Some(i) => Ok(
                        Tables {
                            work_units: t.work_units.update(
                                i,
                                wu_deleted(t.work_units[i], version, at),
                            ),
                            ..t
                        },
                    ),
                }
            },
            AuthorityEvent::TrackedThreadCreated { tracked_thread } => {
                if tracked_thread.revision > MAX_STORED_INTEGER {
                    Err(OrcasErrorView::Store(revision_overflow_message()))
                } else if record_binding_clash(t.tracked_threads, tracked_thread) {
                    Err(OrcasErrorView::Store(unique_binding_message()))
                } else if wu_pos_in(t.work_units, tracked_thread.work_unit_id@) is None {
                    Err(OrcasErrorView::Store(foreign_key_message()))
                } else {
                    Ok(
                        Tables {
                            tracked_threads: tt_upsert(t.tracked_threads, tracked_thread),
                            ..t
                        },
                    )
                }
            },
            AuthorityEvent::TrackedThreadEdited { tracked_thread_id, changes } => {
                match tt_pos_in(t.tracked_threads, tracked_thread_id@) {
                    None => Err(
                        OrcasErrorView::Store(
                            projection_missing_message("projection missing tracked thread `"@, tracked_thread_id@),
                        ),
                    ),
                    Some(i) => match tracked_thread_patch_error(changes) {
                        Some(e) => Err(e),
                        None => {
                            let updated = tracked_thread_patched(
                                t.tracked_threads[i],
                                changes,
                                version,
                                at,
                            );
                            if record_binding_clash(t.tracked_threads, updated) {
                                Err(OrcasErrorView::Store(unique_binding_message()))
                            } else {
                                Ok(
                                    Tables {
                                        tracked_threads: t.tracked_threads.update(i, updated),
                                        ..t
                                    },
                                )
                            }
                        },
                    },
                }
            },
            AuthorityEvent::TrackedThreadDeleted { tracked_thread_id } => {
                match tt_pos_in(t.tracked_threads, tracked_thread_id@) {
                    None => Err(
                        OrcasErrorView::Store(
                            projection_missing_message("projection missing tracked thread `"@, tracked_thread_id@),
                        ),
                    ),
                    Some(i) => Ok(
                        Tables {
                            tracked_threads: t.tracked_threads.update(
                                i,
                                tt_deleted(t.tracked_threads[i], version, at),
                            ),
                            ..t
                        },
                    ),
                }
            },
        }
    }
}

/// Empty projection tables.
pub open spec fn empty_tables() -> Tables {
    Tables { workstreams: Seq::empty(), work_units: Seq::empty(), tracked_threads: Seq::empty() }
}

/// The projection that replaying a log from empty tables gives, or the first error met.
pub open spec fn replay(events: Seq<StoredAuthorityEvent>) -> Result<Tables, OrcasErrorView>
    decreases events.len(),
{
    if events.len() == 0 {
        Ok(empty_tables())
    } else {
        match replay(events.drop_last()) {
            Ok(t) => project_event(t, events.last().envelope),
            Err(e) => Err(e),
        }
    }
}

impl AuthorityState {
    /// The projection tables.
    pub open spec fn tables(&self) -> Tables {
        Tables {
            workstreams: self.workstreams@,
            work_units: self.work_units@,
            tracked_threads: self.tracked_threads@,
        }
    }

    /// Receipts are kept once per command id.
    pub open spec fn receipts_unique(&self) -> bool {
        forall|i: int, j: int|
            #![trigger self.receipts@[i], self.receipts@[j]]
            0 <= i < self.receipts.len() && 0 <= j < self.receipts.len() && i != j
                ==> self.receipts@[i].command_id@ != self.receipts@[j].command_id@
    }

    /// The log is numbered from one without gaps, and the checkpoint is its last entry.
    pub open spec fn log_wf(&self) -> bool {
        &&& self.events.len() <= MAX_STORED_INTEGER
        &&& forall|i: int|
            0 <= i < self.events.len() ==> (#[trigger] self.events@[i]).sequence == i + 1
        &&& self.last_applied_sequence == self.events.len()
    }

    /// The store's well-formedness.
    pub open spec fn wf(&self) -> bool {
        &&& tables_wf(self.tables())
        &&& self.receipts_unique()
        &&& self.log_wf()
        &&& replay(self.events@) == Ok::<Tables, OrcasErrorView>(self.tables())
    }

    /// An empty store.
    pub fn new() -> (r: Self)
        ensures
            r.wf(),
            r.tables() == empty_tables(),
            r.workstreams@.len() == 0,
            r.work_units@.len() == 0,
            r.tracked_threads@.len() == 0,
            r.events@.len() == 0,
            r.receipts@.len() == 0,
    {
        let r = AuthorityState {
            workstreams: Vec::new(),
            work_units: Vec::new(),
            tracked_threads: Vec::new(),
            events: Vec::new(),
            receipts: Vec::new(),
            last_applied_sequence: 0,
        };
        assert(r.tables() =~= empty_tables());
        r
    }

    /// Position of the workstream with an id.
    pub fn find_workstream(&self, id: &str) -> (r: Option<usize>)
        requires
            ws_unique(self.workstreams@),
        ensures
            match r {
                Some(i) => ws_pos_in(self.workstreams@, id@) == Some(i as int),
                None => ws_pos_in(self.workstreams@, id@) is None,
            },
    {
        let mut i: usize = 0;
        while i < self.workstreams.len()
            invariant
                i <= self.workstreams@.len(),
                ws_unique(self.workstreams@),
                forall|j: int| 0 <= j < i ==> (#[trigger] self.workstreams@[j]).id@ != id@,
            decreases self.workstreams.len() - i,
        {
            if str_eq(self.workstreams[i].id.as_str(), id) {
                let ghost c = choose|k: int|
                    0 <= k < self.workstreams@.len() && (#[trigger] self.workstreams@[k]).id@
                        == id@;
                assert(self.workstreams@[i as int].id@ == id@);
                assert(c == i as int) by {
                    if c != i as int {
                        assert(self.workstreams@[c].id@ != self.workstreams@[i as int].id@);
                    }
                }
                return Some(i);
            }
            i = i + 1;
        }
        None
    }

    /// Position of the work unit with an id.
    pub fn find_work_unit(&self, id: &str) -> (r: Option<usize>)
        requires
            wu_unique(self.work_units@),
        ensures
            match r {
                Some(i) => wu_pos_in(self.work_units@, id@) == Some(i as int),
                None => wu_pos_in(self.work_units@, id@) is None,
            },
    {
        let mut i: usize = 0;
        while i < self.work_units.len()
            invariant
                i <= self.work_units@.len(),
                wu_unique(self.work_units@),
                forall|j: int| 0 <= j < i ==> (#[trigger] self.work_units@[j]).id@ != id@,
            decreases self.work_units.len() - i,
        {
            if str_eq(self.work_units[i].id.as_str(), id) {
                let ghost c = choose|k: int|
                    0 <= k < self.work_units@.len() && (#[trigger] self.work_units@[k]).id@
                        == id@;
                assert(self.work_units@[i as int].id@ == id@);
                assert(c == i as int) by {
                    if c != i as int {
                        assert(self.work_units@[c].id@ != self.work_units@[i as int].id@);
                    }
                }
                return Some(i);
            }
            i = i + 1;
        }
        None
    }

    /// Position of the tracked thread with an id.
    pub fn find_tracked_thread(&self, id: &str) -> (r: Option<usize>)
        requires
            tt_unique(self.tracked_threads@),
        ensures
            match r {
                Some(i) => tt_pos_in(self.tracked_threads@, id@) == Some(i as int),
                None => tt_pos_in(self.tracked_threads@, id@) is None,
            },
    {
        let mut i: usize = 0;
        while i < self.tracked_threads.len()
            invariant
                i <= self.tracked_threads@.len(),
                tt_unique(self.tracked_threads@),
                forall|j: int| 0 <= j < i ==> (#[trigger] self.tracked_threads@[j]).id@ != id@,
            decreases self.tracked_threads.len() - i,
        {
            if str_eq(self.tracked_threads[i].id.as_str(), id) {
                let ghost c = choose|k: int|
                    0 <= k < self.tracked_threads@.len()
                        && (#[trigger] self.tracked_threads@[k]).id@ == id@;
                assert(self.tracked_threads@[i as int].id@ == id@);
                assert(c == i as int) by {
                    if c != i as int {
                        assert(self.tracked_threads@[c].id@ != self.tracked_threads@[i
                            as int].id@);
                    }
                }
                return Some(i);
            }
            i = i + 1;
        }
        None
    }

    /// Position of a live tracked thread, other than `excluding`, that holds an upstream thread.
    pub fn find_binding_holder(&self, upstream: &str, excluding: &str) -> (r: Option<usize>)
        ensures
            match r {
                Some(k) => k < self.tracked_threads@.len() && self.tracked_threads@[k as int].deleted_at
                    is None && self.tracked_threads@[k as int].upstream_thread_id is Some
                    && self.tracked_threads@[k as int].upstream_thread_id->0@ == upstream@
                    && self.tracked_threads@[k as int].id@ != excluding@,
                None => !binding_taken(self.tracked_threads@, upstream@, excluding@),
            },
    {
        let mut i: usize = 0;
        while i < self.tracked_threads.len()
            invariant
                i <= self.tracked_threads@.len(),
                forall|j: int|
                    0 <= j < i ==> !((#[trigger] self.tracked_threads@[j]).deleted_at is None
                        && self.tracked_threads@[j].upstream_thread_id is Some
                        && self.tracked_threads@[j].upstream_thread_id->0@ == upstream@
                        && self.tracked_threads@[j].id@ != excluding@),
            decreases self.tracked_threads.len() - i,
        {
            let t = &self.tracked_threads[i];
            if t.deleted_at.is_none() {
                if let Some(u) = &t.upstream_thread_id {
                    if str_eq(u.as_str(), upstream) && !str_eq(t.id.as_str(), excluding) {
                        return Some(i);
                    }
                }
            }
            i = i + 1;
        }
        None
    }
}


/// What appending an event does: the new tables, or the error the store meets.
pub open spec fn append_outcome(s: AuthorityState, env: AuthorityEventEnvelope) -> Result<
    Tables,
    OrcasErrorView,
> {
    if env.metadata.aggregate_version <= MAX_STORED_INTEGER && s.events.len()
        >= MAX_STORED_INTEGER {
        Err(OrcasErrorView::Store(log_full_message()))
    } else {
        project_event(s.tables(), env)
    }
}

/// The effect of a successful append: the tables become `t`, the event joins the log with the
/// next sequence number, and the checkpoint moves to it.
pub open spec fn appended(
    pre: AuthorityState,
    post: AuthorityState,
    t: Tables,
    env: AuthorityEventEnvelope,
) -> bool {
    &&& post.tables() == t
    &&& post.events@ == pre.events@.push(
        StoredAuthorityEvent { sequence: (pre.events.len() + 1) as u64, envelope: env },
    )
    &&& post.receipts@ == pre.receipts@
    &&& post.last_applied_sequence == pre.events.len() + 1
}

impl AuthorityState {
    /// Appends an event to the log and applies it to the projection, as one transaction: on an
    /// error nothing changes.
    pub fn append_event(&mut self, envelope: AuthorityEventEnvelope) -> (r: Result<
        (),
        OrcasError,
    >)
        requires
            old(self).wf(),
        ensures
            final(self).wf(),
            match append_outcome(*old(self), envelope) {
                Err(e) => r is Err && r->Err_0@ == e && *final(self) == *old(self),
                Ok(t) => r is Ok && appended(*old(self), *final(self), t, envelope),
            },
    {
        if envelope.metadata.aggregate_version > MAX_STORED_INTEGER {
            return Err(OrcasError::Store(owned("store revision overflow: out of range integral type conversion attempted")));
        }
        if self.events.len() as u64 >= MAX_STORED_INTEGER {
            return Err(OrcasError::Store(owned("database or disk is full")));
        }
        match &envelope.event {
            AuthorityEvent::WorkstreamCreated { .. } | AuthorityEvent::WorkstreamEdited { .. }
            | AuthorityEvent::WorkstreamDeleted { .. } => {
                self.project_workstream_event(&envelope)?;
            },
            AuthorityEvent::WorkUnitCreated { .. } | AuthorityEvent::WorkUnitEdited { .. }
            | AuthorityEvent::WorkUnitDeleted { .. } => {
                self.project_work_unit_event(&envelope)?;
            },
            _ => {
                self.project_tracked_thread_event(&envelope)?;
            },
        }
        let sequence = self.events.len() as u64 + 1;
        let ghost before = self.events@;
        let ghost env = envelope;
        self.events.push(StoredAuthorityEvent { sequence, envelope });
        self.last_applied_sequence = sequence;
        proof {
            assert(self.events@.drop_last() =~= before);
            assert(self.events@.last().envelope == env);
        }
        Ok(())
    }

    fn project_workstream_event(&mut self, envelope: &AuthorityEventEnvelope) -> (r: Result<
        (),
        OrcasError,
    >)
        requires
            old(self).wf(),
            envelope.metadata.aggregate_version <= MAX_STORED_INTEGER,
            envelope.event is WorkstreamCreated || envelope.event is WorkstreamEdited
                || envelope.event is WorkstreamDeleted,
        ensures
            tables_wf(final(self).tables()),
            final(self).events == old(self).events,
            final(self).receipts == old(self).receipts,
            final(self).last_applied_sequence == old(self).last_applied_sequence,
            match project_event(old(self).tables(), *envelope) {
                Err(e) => r is Err && r->Err_0@ == e && *final(self) == *old(self),
                Ok(t) => r is Ok && final(self).tables() == t,
            },
    {
        let version = envelope.metadata.aggregate_version;
        let at = envelope.metadata.occurred_at;
        let ghost pre = self.tables();
        match &envelope.event {
            AuthorityEvent::WorkstreamCreated { workstream } => {
                if workstream.revision > MAX_STORED_INTEGER {
                    return Err(OrcasError::Store(owned("store revision overflow: out of range integral type conversion attempted")));
                }
                if self.find_workstream(workstream.id.as_str()).is_some() {
                    return Err(OrcasError::Store(owned("UNIQUE constraint failed: workstreams.id")));
                }
                self.workstreams.push(workstream.copy());
                proof { lemma_ws_push_wf(pre, workstream); }
            },
            AuthorityEvent::WorkstreamEdited { workstream_id, changes } => {
                match self.find_workstream(workstream_id.as_str()) {
                    None => {
                        return Err(OrcasError::Store(cat3("projection missing workstream `", workstream_id.as_str(), "`")));
                    },
                    Some(i) => {
                        let updated = apply_workstream_patch(self.workstreams[i].copy(), changes, version, at)?;
                        self.workstreams.set(i, updated);
                        proof { lemma_ws_update_wf(pre, i as int, updated); }
                    },
                }
            },
            AuthorityEvent::WorkstreamDeleted { workstream_id } => {
                match self.find_workstream(workstream_id.as_str()) {
                    None => {
                        return Err(OrcasError::Store(cat3("projection missing workstream `", workstream_id.as_str(), "`")));
                    },
                    Some(i) => {
                        let mut updated = self.workstreams[i].copy();
                        updated.deleted_at = Some(at);
                        updated.updated_at = at;
                        updated.revision = version;
                        self.workstreams.set(i, updated);
                        proof { lemma_ws_update_wf(pre, i as int, updated); }
                    },
                }
            },
            _ => {},
        }
        Ok(())
    }

    fn project_work_unit_event(&mut self, envelope: &AuthorityEventEnvelope) -> (r: Result<
        (),
        OrcasError,
    >)
        requires
            old(self).wf(),
            envelope.metadata.aggregate_version <= MAX_STORED_INTEGER,
            envelope.event is WorkUnitCreated || envelope.event is WorkUnitEdited
                || envelope.event is WorkUnitDeleted,
        ensures
            tables_wf(final(self).tables()),
            final(self).events == old(self).events,
            final(self).receipts == old(self).receipts,
            final(self).last_applied_sequence == old(self).last_applied_sequence,
            match project_event(old(self).tables(), *envelope) {
                Err(e) => r is Err && r->Err_0@ == e && *final(self) == *old(self),
                Ok(t) => r is Ok && final(self).tables() == t,
            },
    {
        let version = envelope.metadata.aggregate_version;
        let at = envelope.metadata.occurred_at;
        let ghost pre = self.tables();
        match &envelope.event {
            AuthorityEvent::WorkUnitCreated { work_unit } => {
                if work_unit.revision > MAX_STORED_INTEGER {
                    return Err(OrcasError::Store(owned("store revision overflow: out of range integral type conversion attempted")));
                }
                if self.find_workstream(work_unit.workstream_id.as_str()).is_none() {
                    return Err(OrcasError::Store(owned("FOREIGN KEY constraint failed")));
                }
                match self.find_work_unit(work_unit.id.as_str()) {
                    Some(i) => {
                        self.work_units.set(i, work_unit.copy());
                        proof { lemma_wu_update_wf(pre, i as int, *work_unit); }
                    },
                    None => {
                        self.work_units.push(work_unit.copy());
                        proof { lemma_wu_push_wf(pre, *work_unit); }
                    },
                }
            },
            AuthorityEvent::WorkUnitEdited { work_unit_id, changes } => {
                match self.find_work_unit(work_unit_id.as_str()) {
                    None => {
                        return Err(OrcasError::Store(cat3("projection missing work unit `", work_unit_id.as_str(), "`")));
                    },
                    Some(i) => {
                        let updated = apply_work_unit_patch(self.work_units[i].copy(), changes, version, at)?;
                        self.work_units.set(i, updated);
                        proof { lemma_wu_update_wf(pre, i as int, updated); }
                    },
                }
            },
            AuthorityEvent::WorkUnitDeleted { work_unit_id } => {
                match self.find_work_unit(work_unit_id.as_str()) {
                    None => {
                        return Err(OrcasError::Store(cat3("projection missing work unit `", work_unit_id.as_str(), "`")));
                    },
                    Some(i) => {
                        let mut updated = self.work_units[i].copy();
                        updated.deleted_at = Some(at);
                        updated.updated_at = at;
                        updated.revision = version;
                        self.work_units.set(i, updated);
                        proof { lemma_wu_update_wf(pre, i as int, updated); }
                    },
                }
            },
            _ => {},
        }
        Ok(())
    }

    fn project_tracked_thread_event(&mut self, envelope: &AuthorityEventEnvelope) -> (r: Result<
        (),
        OrcasError,
    >)
        requires
            old(self).wf(),
            envelope.metadata.aggregate_version <= MAX_STORED_INTEGER,
            envelope.event is TrackedThreadCreated || envelope.event is TrackedThreadEdited
                || envelope.event is TrackedThreadDeleted,
        ensures
            tables_wf(final(self).tables()),
            final(self).events == old(self).events,
            final(self).receipts == old(self).receipts,
            final(self).last_applied_sequence == old(self).last_applied_sequence,
            match project_event(old(self).tables(), *envelope) {
                Err(e) => r is Err && r->Err_0@ == e && *final(self) == *old(self),
                Ok(t) => r is Ok && final(self).tables() == t,
            },
    {
        let version = envelope.metadata.aggregate_version;
        let at = envelope.metadata.occurred_at;
        let ghost pre = self.tables();
        match &envelope.event {
            AuthorityEvent::TrackedThreadCreated { tracked_thread } => {
                if tracked_thread.revision > MAX_STORED_INTEGER {
                    return Err(OrcasError::Store(owned("store revision overflow: out of range integral type conversion attempted")));
                }
                if self.clashes(tracked_thread) {
                    return Err(OrcasError::Store(owned("UNIQUE constraint failed: tracked_threads.upstream_thread_id")));
                }
                if self.find_work_unit(tracked_thread.work_unit_id.as_str()).is_none() {
                    return Err(OrcasError::Store(owned("FOREIGN KEY constraint failed")));
                }
                match self.find_tracked_thread(tracked_thread.id.as_str()) {
                    Some(i) => {
                        self.tracked_threads.set(i, tracked_thread.copy());
                        proof { lemma_tt_update_wf(pre, i as int, *tracked_thread); }
                    },
                    None => {
                        self.tracked_threads.push(tracked_thread.copy());
                        proof { lemma_tt_push_wf(pre, *tracked_thread); }
                    },
                }
            },
            AuthorityEvent::TrackedThreadEdited { tracked_thread_id, changes } => {
                match self.find_tracked_thread(tracked_thread_id.as_str()) {
                    None => {
                        return Err(OrcasError::Store(cat3("projection missing tracked thread `", tracked_thread_id.as_str(), "`")));
                    },
                    Some(i) => {
                        let updated = apply_tracked_thread_patch(self.tracked_threads[i].copy(), changes, version, at)?;
                        if self.clashes(&updated) {
                            return Err(OrcasError::Store(owned("UNIQUE constraint failed: tracked_threads.upstream_thread_id")));
                        }
                        self.tracked_threads.set(i, updated);
                        proof { lemma_tt_update_wf(pre, i as int, updated); }
                    },
                }
            },
            AuthorityEvent::TrackedThreadDeleted { tracked_thread_id } => {
                match self.find_tracked_thread(tracked_thread_id.as_str()) {
                    None => {
                        return Err(OrcasError::Store(cat3("projection missing tracked thread `", tracked_thread_id.as_str(), "`")));
                    },
                    Some(i) => {
                        let mut updated = self.tracked_threads[i].copy();
                        updated.deleted_at = Some(at);
                        updated.updated_at = at;
                        updated.revision = version;
                        proof { assert(!record_binding_clash(pre.tracked_threads, updated)); }
                        self.tracked_threads.set(i, updated);
                        proof { lemma_tt_update_wf(pre, i as int, updated); }
                    },
                }
            },
            _ => {},
        }
        Ok(())
    }

    /// Whether a record would clash with a live binding already held by another tracked thread.
    pub fn clashes(&self, t: &TrackedThreadRecord) -> (r: bool)
        ensures
            r == record_binding_clash(self.tracked_threads@, *t),
    {
        if t.deleted_at.is_some() {
            return false;
        }
        match &t.upstream_thread_id {
            None => false,
            Some(u) => self.find_binding_holder(u.as_str(), t.id.as_str()).is_some(),
        }
    }
}


pub proof fn lemma_ws_push_wf(t: Tables, r: &WorkstreamRecord)
    requires
        tables_wf(t),
        ws_pos_in(t.workstreams, r.id@) is None,
        r.revision <= MAX_STORED_INTEGER,
    ensures
        tables_wf(Tables { workstreams: t.workstreams.push(*r), ..t }),
{
    let n = Tables { workstreams: t.workstreams.push(*r), ..t };
    assert forall|i: int, j: int|
        #![trigger n.workstreams[i], n.workstreams[j]]
        0 <= i < n.workstreams.len() && 0 <= j < n.workstreams.len() && i != j
            implies n.workstreams[i].id@ != n.workstreams[j].id@ by {
        if i == t.workstreams.len() as int {
            assert(t.workstreams[j].id@ != r.id@);
        } else if j == t.workstreams.len() as int {
            assert(t.workstreams[i].id@ != r.id@);
        } else {
            assert(t.workstreams[i] == n.workstreams[i]);
            assert(t.workstreams[j] == n.workstreams[j]);
        }
    }
    assert forall|i: int| 0 <= i < n.work_units.len() implies ws_pos_in(
        n.workstreams,
        (#[trigger] n.work_units[i]).workstream_id@,
    ) is Some by {
        let id = n.work_units[i].workstream_id@;
        assert(ws_pos_in(t.workstreams, id) is Some);
        let k = choose|k: int| 0 <= k < t.workstreams.len() && (#[trigger] t.workstreams[k]).id@ == id;
        assert(n.workstreams[k] == t.workstreams[k]);
    }
    assert forall|i: int| 0 <= i < n.workstreams.len() implies (#[trigger] n.workstreams[i]).revision
        <= MAX_STORED_INTEGER by {
        if i < t.workstreams.len() {
            assert(n.workstreams[i] == t.workstreams[i]);
        }
    }
}

pub proof fn lemma_ws_update_wf(t: Tables, i: int, r: WorkstreamRecord)
    requires
        tables_wf(t),
        0 <= i < t.workstreams.len(),
        r.id@ == t.workstreams[i].id@,
        r.revision <= MAX_STORED_INTEGER,
    ensures
        tables_wf(Tables { workstreams: t.workstreams.update(i, r), ..t }),
{
    let n = Tables { workstreams: t.workstreams.update(i, r), ..t };
    assert forall|a: int, b: int|
        #![trigger n.workstreams[a], n.workstreams[b]]
        0 <= a < n.workstreams.len() && 0 <= b < n.workstreams.len() && a != b
            implies n.workstreams[a].id@ != n.workstreams[b].id@ by {
        assert(t.workstreams[a].id@ != t.workstreams[b].id@);
    }
    assert forall|k: int| 0 <= k < n.work_units.len() implies ws_pos_in(
        n.workstreams,
        (#[trigger] n.work_units[k]).workstream_id@,
    ) is Some by {
        let id = n.work_units[k].workstream_id@;
        assert(ws_pos_in(t.workstreams, id) is Some);
        let w = choose|w: int| 0 <= w < t.workstreams.len() && (#[trigger] t.workstreams[w]).id@ == id;
        assert(n.workstreams[w].id@ == id);
    }
    assert forall|k: int| 0 <= k < n.workstreams.len() implies (#[trigger] n.workstreams[k]).revision
        <= MAX_STORED_INTEGER by {
        if k != i {
            assert(n.workstreams[k] == t.workstreams[k]);
        }
    }
}

pub proof fn lemma_wu_push_wf(t: Tables, r: WorkUnitRecord)
    requires
        tables_wf(t),
        wu_pos_in(t.work_units, r.id@) is None,
        r.revision <= MAX_STORED_INTEGER,
        ws_pos_in(t.workstreams, r.workstream_id@) is Some,
    ensures
        tables_wf(Tables { work_units: t.work_units.push(r), ..t }),
{
    let n = Tables { work_units: t.work_units.push(r), ..t };
    assert forall|i: int, j: int|
        #![trigger n.work_units[i], n.work_units[j]]
        0 <= i < n.work_units.len() && 0 <= j < n.work_units.len() && i != j
            implies n.work_units[i].id@ != n.work_units[j].id@ by {
        if i == t.work_units.len() as int {
            assert(t.work_units[j].id@ != r.id@);
        } else if j == t.work_units.len() as int {
            assert(t.work_units[i].id@ != r.id@);
        } else {
            assert(t.work_units[i] == n.work_units[i]);
            assert(t.work_units[j] == n.work_units[j]);
        }
    }
    assert forall|i: int| 0 <= i < n.tracked_threads.len() implies wu_pos_in(
        n.work_units,
        (#[trigger] n.tracked_threads[i]).work_unit_id@,
    ) is Some by {
        let id = n.tracked_threads[i].work_unit_id@;
        assert(wu_pos_in(t.work_units, id) is Some);
        let k = choose|k: int| 0 <= k < t.work_units.len() && (#[trigger] t.work_units[k]).id@ == id;
        assert(n.work_units[k] == t.work_units[k]);
    }
    assert forall|i: int| 0 <= i < n.work_units.len() implies (#[trigger] n.work_units[i]).revision
        <= MAX_STORED_INTEGER && ws_pos_in(n.workstreams, n.work_units[i].workstream_id@) is Some by {
        if i < t.work_units.len() {
            assert(n.work_units[i] == t.work_units[i]);
        }
    }
}

pub proof fn lemma_wu_update_wf(t: Tables, i: int, r: WorkUnitRecord)
    requires
        tables_wf(t),
        0 <= i < t.work_units.len(),
        r.id@ == t.work_units[i].id@,
        r.revision <= MAX_STORED_INTEGER,
        ws_pos_in(t.workstreams, r.workstream_id@) is Some,
    ensures
        tables_wf(Tables { work_units: t.work_units.update(i, r), ..t }),
{
    let n = Tables { work_units: t.work_units.update(i, r), ..t };
    assert forall|a: int, b: int|
        #![trigger n.work_units[a], n.work_units[b]]
        0 <= a < n.work_units.len() && 0 <= b < n.work_units.len() && a != b
            implies n.work_units[a].id@ != n.work_units[b].id@ by {
        assert(t.work_units[a].id@ != t.work_units[b].id@);
    }
    assert forall|k: int| 0 <= k < n.tracked_threads.len() implies wu_pos_in(
        n.work_units,
        (#[trigger] n.tracked_threads[k]).work_unit_id@,
    ) is Some by {
        let id = n.tracked_threads[k].work_unit_id@;
        assert(wu_pos_in(t.work_units, id) is Some);
        let w = choose|w: int| 0 <= w < t.work_units.len() && (#[trigger] t.work_units[w]).id@ == id;
        assert(n.work_units[w].id@ == id);
    }
    assert forall|k: int| 0 <= k < n.work_units.len() implies (#[trigger] n.work_units[k]).revision
        <= MAX_STORED_INTEGER && ws_pos_in(n.workstreams, n.work_units[k].workstream_id@) is Some by {
        if k != i {
            assert(n.work_units[k] == t.work_units[k]);
        }
    }
}

pub proof fn lemma_tt_push_wf(t: Tables, r: TrackedThreadRecord)
    requires
        tables_wf(t),
        tt_pos_in(t.tracked_threads, r.id@) is None,
        r.revision <= MAX_STORED_INTEGER,
        wu_pos_in(t.work_units, r.work_unit_id@) is Some,
        !record_binding_clash(t.tracked_threads, r),
    ensures
        tables_wf(Tables { tracked_threads: t.tracked_threads.push(r), ..t }),
{
    let n = Tables { tracked_threads: t.tracked_threads.push(r), ..t };
    let len = t.tracked_threads.len() as int;
    assert forall|i: int, j: int|
        #![trigger n.tracked_threads[i], n.tracked_threads[j]]
        0 <= i < n.tracked_threads.len() && 0 <= j < n.tracked_threads.len() && i != j
            implies n.tracked_threads[i].id@ != n.tracked_threads[j].id@ && !same_live_binding(
            n.tracked_threads[i],
            n.tracked_threads[j],
        ) by {
        if i == len {
            assert(t.tracked_threads[j].id@ != r.id@);
            if same_live_binding(r, t.tracked_threads[j]) {
                assert(binding_taken(t.tracked_threads, r.upstream_thread_id->0@, r.id@));
            }
        } else if j == len {
            assert(t.tracked_threads[i].id@ != r.id@);
            if same_live_binding(t.tracked_threads[i], r) {
                assert(binding_taken(t.tracked_threads, r.upstream_thread_id->0@, r.id@));
            }
        } else {
            assert(t.tracked_threads[i] == n.tracked_threads[i]);
            assert(t.tracked_threads[j] == n.tracked_threads[j]);
        }
    }
    assert forall|i: int| 0 <= i < n.tracked_threads.len() implies (#[trigger] n.tracked_threads[i]).revision
        <= MAX_STORED_INTEGER && wu_pos_in(n.work_units, n.tracked_threads[i].work_unit_id@) is Some by {
        if i < len {
            assert(n.tracked_threads[i] == t.tracked_threads[i]);
        }
    }
}

pub proof fn lemma_tt_update_wf(t: Tables, i: int, r: TrackedThreadRecord)
    requires
        tables_wf(t),
        0 <= i < t.tracked_threads.len(),
        r.id@ == t.tracked_threads[i].id@,
        r.revision <= MAX_STORED_INTEGER,
        wu_pos_in(t.work_units, r.work_unit_id@) is Some,
        !record_binding_clash(t.tracked_threads, r),
    ensures
        tables_wf(Tables { tracked_threads: t.tracked_threads.update(i, r), ..t }),
{
    let n = Tables { tracked_threads: t.tracked_threads.update(i, r), ..t };
    assert forall|a: int, b: int|
        #![trigger n.tracked_threads[a], n.tracked_threads[b]]
        0 <= a < n.tracked_threads.len() && 0 <= b < n.tracked_threads.len() && a != b
            implies n.tracked_threads[a].id@ != n.tracked_threads[b].id@ && !same_live_binding(
            n.tracked_threads[a],
            n.tracked_threads[b],
        ) by {
        assert(t.tracked_threads[a].id@ != t.tracked_threads[b].id@);
        if a == i {
            if same_live_binding(r, t.tracked_threads[b]) {
                assert(binding_taken(t.tracked_threads, r.upstream_thread_id->0@, r.id@));
            }
        } else if b == i {
            if same_live_binding(t.tracked_threads[a], r) {
                assert(binding_taken(t.tracked_threads, r.upstream_thread_id->0@, r.id@));
            }
        } else {
            assert(!same_live_binding(t.tracked_threads[a], t.tracked_threads[b]));
        }
    }
    assert forall|k: int| 0 <= k < n.tracked_threads.len() implies (#[trigger] n.tracked_threads[k]).revision
        <= MAX_STORED_INTEGER && wu_pos_in(n.work_units, n.tracked_threads[k].work_unit_id@) is Some by {
        if k != i {
            assert(n.tracked_threads[k] == t.tracked_threads[k]);
        }
    }
}

} // verus!
