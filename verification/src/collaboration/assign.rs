use vstd::prelude::*;

use super::keyed::{find, get, has, keys_unique, lemma_pos_of, lemma_update_keyed, pos_of, upsert, upserted, Keyed};
use super::seeds::{manual_implement_assignment_seed, manual_seed, opt_view, SeedView};
use super::sessions::session_selected;
use super::status::{dependencies_satisfied, deps_satisfied};
use super::types::{
    Assignment, AssignmentCommunicationRecord, AssignmentCommunicationSeed, AssignmentStatus, CollaborationState,
    WorkUnit,
};
use crate::assignment_comm::policy::{packet_error, validate_assignment_packet};
use crate::model::{copy_opt_string, OrcasError, OrcasErrorView, WorkUnitStatus};
use crate::text::{cat3, owned, str_eq};

verus! {

/// A request to start a work unit with a worker.
#[derive(Debug)]
pub struct AssignmentStartRequest {
    pub work_unit_id: String,
    pub worker_id: String,
    pub worker_kind: Option<String>,
    pub instructions: Option<String>,
    pub model: Option<String>,
    pub cwd: Option<String>,
}

/// The assignment a start runs, and whether it was made now.
#[derive(Debug)]
pub struct PreparedAssignment {
    pub assignment: Assignment,
    pub created_new: bool,
}

/// Whether two assignments hold the same contents.
pub open spec fn same_assignment(a: Assignment, b: Assignment) -> bool {
    &&& a.id == b.id
    &&& a.work_unit_id == b.work_unit_id
    &&& a.worker_id == b.worker_id
    &&& a.worker_session_id == b.worker_session_id
    &&& a.instructions == b.instructions
    &&& (a.communication_seed is Some <==> b.communication_seed is Some)
    &&& (a.communication_seed is Some ==> a.communication_seed->0@ == b.communication_seed->0@)
    &&& a.status == b.status
    &&& a.attempt_number == b.attempt_number
    &&& a.created_at == b.created_at
    &&& a.updated_at == b.updated_at
}

impl Assignment {
    /// A copy of the assignment.
    pub fn copy(&self) -> (r: Self)
        ensures
            same_assignment(r, *self),
    {
        Assignment {
            id: self.id.clone(),
            work_unit_id: self.work_unit_id.clone(),
            worker_id: self.worker_id.clone(),
            worker_session_id: self.worker_session_id.clone(),
            instructions: self.instructions.clone(),
            communication_seed: match &self.communication_seed {
                Some(s) => Some(s.copy()),
                None => None,
            },
            status: self.status,
            attempt_number: self.attempt_number,
            created_at: self.created_at,
            updated_at: self.updated_at,
        }
    }
}

/// How `{:?}` writes a work unit status.
pub open spec fn status_name(s: WorkUnitStatus) -> Seq<char> {
    match s {
        WorkUnitStatus::Ready => "Ready"@,
        WorkUnitStatus::Blocked => "Blocked"@,
        WorkUnitStatus::Running => "Running"@,
        WorkUnitStatus::AwaitingDecision => "AwaitingDecision"@,
        WorkUnitStatus::Accepted => "Accepted"@,
        WorkUnitStatus::NeedsHuman => "NeedsHuman"@,
        WorkUnitStatus::Completed => "Completed"@,
    }
}

/// How `{:?}` writes a work unit status.
pub fn status_debug(s: WorkUnitStatus) -> (r: &'static str)
    ensures
        r@ == status_name(s),
{
    match s {
        WorkUnitStatus::Ready => "Ready",
        WorkUnitStatus::Blocked => "Blocked",
        WorkUnitStatus::Running => "Running",
        WorkUnitStatus::AwaitingDecision => "AwaitingDecision",
        WorkUnitStatus::Accepted => "Accepted",
        WorkUnitStatus::NeedsHuman => "NeedsHuman",
        WorkUnitStatus::Completed => "Completed",
    }
}

/// Whether an assignment belongs to a work unit.
pub open spec fn of_unit(a: Assignment, work_unit_id: Seq<char>) -> bool {
    a.work_unit_id@ == work_unit_id
}

/// Whether an assignment of a work unit was created and not yet run.
pub open spec fn is_pending(a: Assignment, work_unit_id: Seq<char>) -> bool {
    of_unit(a, work_unit_id) && a.status == AssignmentStatus::Created
}

/// How many assignments of a work unit there are.
pub open spec fn count_of_unit(s: Seq<Assignment>, work_unit_id: Seq<char>) -> nat
    decreases s.len(),
{
    if s.len() == 0 {
        0
    } else {
        count_of_unit(s.drop_last(), work_unit_id) + if of_unit(s.last(), work_unit_id) { 1nat } else { 0nat }
    }
}

/// How many pending assignments of a work unit there are.
pub open spec fn count_pending(s: Seq<Assignment>, work_unit_id: Seq<char>) -> nat
    decreases s.len(),
{
    if s.len() == 0 {
        0
    } else {
        count_pending(s.drop_last(), work_unit_id) + if is_pending(s.last(), work_unit_id) { 1nat } else { 0nat }
    }
}

/// Whether assignment `a` is not ordered after `b` by attempt, then creation time.
pub open spec fn attempt_le(a: Assignment, b: Assignment) -> bool {
    a.attempt_number < b.attempt_number || (a.attempt_number == b.attempt_number && a.created_at <= b.created_at)
}

/// Whether the assignment at `k` is the unit's latest: greatest by attempt then creation time,
/// and the last such in the store's order (which `max_by` keeps).
pub open spec fn is_latest(s: Seq<Assignment>, work_unit_id: Seq<char>, k: int) -> bool {
    &&& 0 <= k < s.len()
    &&& of_unit(s[k], work_unit_id)
    &&& forall|j: int| 0 <= j < s.len() && of_unit(#[trigger] s[j], work_unit_id) ==> attempt_le(s[j], s[k])
    &&& forall|j: int| k < j < s.len() && of_unit(#[trigger] s[j], work_unit_id) ==> !attempt_le(s[k], s[j])
}

/// The position of the pending assignment, when there is exactly one.
pub open spec fn pending_pos(s: Seq<Assignment>, work_unit_id: Seq<char>) -> int {
    choose|k: int| 0 <= k < s.len() && is_pending(#[trigger] s[k], work_unit_id)
}

/// Whether a work unit's one pending assignment may be resumed: it is the unit's current
/// assignment and its latest.
pub open spec fn pending_resumable(st: CollaborationState, w: WorkUnit) -> bool {
    let p = pending_pos(st.assignments@, w.id@);
    &&& w.current_assignment_id is Some
    &&& w.current_assignment_id->0@ == st.assignments@[p].id@
    &&& is_latest(st.assignments@, w.id@, p)
}

/// Why a work unit cannot be started, if it cannot.
pub open spec fn prepare_error(st: CollaborationState, work_unit_id: Seq<char>) -> Option<Seq<char>> {
    match get(st.work_units@, work_unit_id) {
        None => Some("unknown work unit `"@ + work_unit_id + "`"@),
        Some(w) => if w.status != WorkUnitStatus::Ready {
            Some("work unit `"@ + work_unit_id + "` is not startable in status `"@ + status_name(w.status) + "`"@)
        } else if !deps_satisfied(st.work_units@, w.dependencies@) {
            Some("work unit `"@ + work_unit_id + "` still has incomplete dependencies"@)
        } else if count_pending(st.assignments@, work_unit_id) > 1 {
            Some("work unit `"@ + work_unit_id + "` has multiple unexecuted pending assignments"@)
        } else if count_pending(st.assignments@, work_unit_id) == 1 && !pending_resumable(st, w) {
            Some("work unit `"@ + work_unit_id + "` has an unexecuted pending assignment that is not the current latest successor"@)
        } else {
            None
        },
    }
}

/// The worker kind asked for, `codex` by default.
pub open spec fn kind_or_codex(kind: Option<String>) -> Seq<char> {
    if kind is Some {
        kind->0@
    } else {
        "codex"@
    }
}

/// The assignment a new start creates.
pub open spec fn new_assignment_ok(
    a: Assignment,
    id: Seq<char>,
    req: AssignmentStartRequest,
    w: WorkUnit,
    session_id: Seq<char>,
    attempt: int,
    now: i64,
) -> bool {
    &&& a.id@ == id
    &&& a.work_unit_id@ == req.work_unit_id@
    &&& a.worker_id@ == req.worker_id@
    &&& a.worker_session_id@ == session_id
    &&& a.instructions@ == (if req.instructions is Some { req.instructions->0@ } else { w.task_statement@ })
    &&& a.communication_seed is Some
    &&& a.communication_seed->0@ == manual_seed(w.task_statement@, w.title@, opt_view(req.instructions), opt_view(w.latest_report_id))
    &&& a.status == AssignmentStatus::Created
    &&& a.attempt_number == attempt
    &&& a.created_at == now
    &&& a.updated_at == now
}

proof fn lemma_count_step(s: Seq<Assignment>, work_unit_id: Seq<char>, i: int)
    requires
        0 <= i < s.len(),
    ensures
        count_of_unit(s.take(i + 1), work_unit_id) == count_of_unit(s.take(i), work_unit_id) + if of_unit(s[i], work_unit_id) { 1nat } else { 0nat },
        count_pending(s.take(i + 1), work_unit_id) == count_pending(s.take(i), work_unit_id) + if is_pending(s[i], work_unit_id) { 1nat } else { 0nat },
{
    assert(s.take(i + 1).drop_last() =~= s.take(i));
}

proof fn lemma_count_pending_one(s: Seq<Assignment>, work_unit_id: Seq<char>, p: int)
    requires
        0 <= p < s.len(),
        is_pending(s[p], work_unit_id),
        forall|j: int| 0 <= j < s.len() && j != p ==> !is_pending(#[trigger] s[j], work_unit_id),
    ensures
        pending_pos(s, work_unit_id) == p,
{
}

/// What preparing an assignment for `req` does, from `pre` to `post`, answering `r`: a refused
/// request changes nothing; the only unexecuted pending assignment of the unit is reused as it is;
/// otherwise a new assignment is created on a selected worker session and the unit points at it.
pub open spec fn assignment_selected(
    pre: CollaborationState,
    post: CollaborationState,
    req: AssignmentStartRequest,
    now: i64,
    new_assignment_id: Seq<char>,
    new_session_id: Seq<char>,
    r: Result<PreparedAssignment, OrcasError>,
) -> bool {
    match prepare_error(pre, req.work_unit_id@) {
        Some(m) => r is Err && r->Err_0@ == OrcasErrorView::Protocol(m) && post == pre,
        None => r is Ok && {
            let w = get(pre.work_units@, req.work_unit_id@)->0;
            if count_pending(pre.assignments@, req.work_unit_id@) == 1 {
                &&& post == pre
                &&& !r->Ok_0.created_new
                &&& same_assignment(r->Ok_0.assignment, pre.assignments@[pending_pos(pre.assignments@, req.work_unit_id@)])
            } else {
                exists|mid: CollaborationState, sid: Seq<char>, a: Assignment| {
                    &&& #[trigger] session_selected(pre, mid, req.worker_id@, kind_or_codex(req.worker_kind), now, new_session_id, sid)
                    &&& #[trigger] new_assignment_ok(a, new_assignment_id, req, w, sid, count_of_unit(pre.assignments@, req.work_unit_id@) as int + 1, now)
                    &&& post.assignments@ == upserted(mid.assignments@, a)
                    &&& post.work_units@ == mid.work_units@.update(
                        pos_of(mid.work_units@, req.work_unit_id@)->0,
                        WorkUnit {
                            current_assignment_id: Some(a.id),
                            status: WorkUnitStatus::Ready,
                            updated_at: now,
                            ..w
                        },
                    )
                    &&& post.workers == mid.workers
                    &&& post.worker_sessions == mid.worker_sessions
                    &&& post.workstreams == pre.workstreams
                    &&& post.reports == pre.reports
                    &&& post.decisions == pre.decisions
                    &&& post.supervisor_proposals == pre.supervisor_proposals
                    &&& post.assignment_communications == pre.assignment_communications
                    &&& r->Ok_0.created_new
                    &&& same_assignment(r->Ok_0.assignment, a)
                }
            }
        },
    }
}

impl CollaborationState {
    /// Chooses or creates the assignment a start runs. A work unit must be ready with its
    /// dependencies complete; a single pending assignment is resumed when it is the unit's current
    /// and latest one, else a new assignment is created on a selected worker session.
    pub fn select_assignment(
        &mut self,
        req: &AssignmentStartRequest,
        now: i64,
        new_assignment_id: String,
        new_session_id: String,
    ) -> (r: Result<PreparedAssignment, OrcasError>)
        requires
            old(self).wf(),
            old(self).assignments@.len() < u32::MAX,
        ensures
            final(self).wf(),
            assignment_selected(*old(self), *final(self), *req, now, new_assignment_id@, new_session_id@, r),
    {
        let id = req.work_unit_id.as_str();
        let wi = match find(&self.work_units, id) {
            Some(i) => i,
            None => {
                return Err(OrcasError::Protocol(cat3("unknown work unit `", id, "`")));
            },
        };
        let status = self.work_units[wi].status;
        if status != WorkUnitStatus::Ready {
            let m = cat3("work unit `", id, "` is not startable in status `").concat(status_debug(status)).concat("`");
            return Err(OrcasError::Protocol(m));
        }
        if !dependencies_satisfied(self, &self.work_units[wi].dependencies) {
            return Err(OrcasError::Protocol(cat3("work unit `", id, "` still has incomplete dependencies")));
        }
        let mut pending: Option<usize> = None;
        let mut pending_count: usize = 0;
        let mut unit_count: usize = 0;
        let mut latest: Option<usize> = None;
        let mut i: usize = 0;
        while i < self.assignments.len()
            invariant
                i <= self.assignments@.len(),
                self.assignments@.len() < u32::MAX,
                unit_count == count_of_unit(self.assignments@.take(i as int), id@),
                pending_count == count_pending(self.assignments@.take(i as int), id@),
                unit_count <= i,
                pending_count <= i,
                match pending {
                    Some(p) => p < i && is_pending(self.assignments@[p as int], id@) && pending_count >= 1
                        && (pending_count == 1 ==> forall|j: int| 0 <= j < i && j != p ==> !is_pending(#[trigger] self.assignments@[j], id@)),
                    None => pending_count == 0 && forall|j: int| 0 <= j < i ==> !is_pending(#[trigger] self.assignments@[j], id@),
                },
                match latest {
                    Some(k) => k < i && is_latest(self.assignments@.take(i as int), id@, k as int),
                    None => forall|j: int| 0 <= j < i ==> !of_unit(#[trigger] self.assignments@[j], id@),
                },
            decreases self.assignments.len() - i,
        {
            proof { lemma_count_step(self.assignments@, id@, i as int); }
            let a = &self.assignments[i];
            let ghost t = self.assignments@.take(i as int);
            let ghost t1 = self.assignments@.take(i + 1);
            if str_eq(a.work_unit_id.as_str(), id) {
                unit_count = unit_count + 1;
                if a.status == AssignmentStatus::Created {
                    if pending.is_none() {
                        pending = Some(i);
                    }
                    pending_count = pending_count + 1;
                }
                let take_new = match latest {
                    None => true,
                    Some(k) => {
                        let b = &self.assignments[k];
                        b.attempt_number < a.attempt_number || (b.attempt_number == a.attempt_number && b.created_at <= a.created_at)
                    },
                };
                proof {
                    assert forall|j: int| 0 <= j < i implies #[trigger] t1[j] == t[j] by {}
                    assert(t1[i as int] == self.assignments@[i as int]);
                }
                if take_new {
                    latest = Some(i);
                    proof {
                        assert forall|j: int| 0 <= j < t1.len() && of_unit(#[trigger] t1[j], id@) implies attempt_le(t1[j], t1[i as int]) by {
                            if j < i {
                                assert(t1[j] == t[j]);
                            }
                        }
                    }
                } else {
                    proof {
                        let k = latest->0 as int;
                        assert forall|j: int| 0 <= j < t1.len() && of_unit(#[trigger] t1[j], id@) implies attempt_le(t1[j], t1[k]) by {
                            if j < i {
                                assert(t1[j] == t[j]);
                            }
                        }
                        assert forall|j: int| k < j < t1.len() && of_unit(#[trigger] t1[j], id@) implies !attempt_le(t1[k], t1[j]) by {
                            if j < i {
                                assert(t1[j] == t[j]);
                            }
                        }
                    }
                }
            } else {
                proof {
                    assert forall|j: int| 0 <= j < i implies #[trigger] t1[j] == t[j] by {}
                    if latest is Some {
                        let k = latest->0 as int;
                        assert forall|j: int| 0 <= j < t1.len() && of_unit(#[trigger] t1[j], id@) implies attempt_le(t1[j], t1[k]) by {
                            if j < i {
                                assert(t1[j] == t[j]);
                            }
                        }
                        assert forall|j: int| k < j < t1.len() && of_unit(#[trigger] t1[j], id@) implies !attempt_le(t1[k], t1[j]) by {
                            if j < i {
                                assert(t1[j] == t[j]);
                            }
                        }
                    }
                }
            }
            i = i + 1;
        }
        assert(self.assignments@.take(i as int) =~= self.assignments@);
        if pending_count > 1 {
            return Err(OrcasError::Protocol(cat3("work unit `", id, "` has multiple unexecuted pending assignments")));
        }
        if let Some(p) = pending {
            proof { lemma_count_pending_one(self.assignments@, id@, p as int); }
            let resumable = match (&self.work_units[wi].current_assignment_id, latest) {
                (Some(current), Some(k)) => str_eq(current.as_str(), self.assignments[p].id.as_str()) && k == p,
                _ => false,
            };
            proof {
                if latest is Some && latest->0 != p {
                    let k = latest->0 as int;
                    if is_latest(self.assignments@, id@, p as int) {
                        if k < p {
                            assert(!attempt_le(self.assignments@[k], self.assignments@[p as int]));
                        } else {
                            assert(!attempt_le(self.assignments@[p as int], self.assignments@[k]));
                        }
                    }
                }
            }
            if !resumable {
                return Err(OrcasError::Protocol(cat3("work unit `", id, "` has an unexecuted pending assignment that is not the current latest successor")));
            }
            return Ok(PreparedAssignment { assignment: self.assignments[p].copy(), created_new: false });
        }
        let ghost pre = *self;
        let kind = match &req.worker_kind {
            Some(k) => k.clone(),
            None => owned("codex"),
        };
        let session_id = self.select_worker_session_for_assignment(req.worker_id.as_str(), kind, now, new_session_id);
        let ghost mid = *self;
        let wi = match find(&self.work_units, id) {
            Some(i) => i,
            None => {
                assert(false);
                return Err(OrcasError::Protocol(cat3("unknown work unit `", id, "`")));
            },
        };
        let attempt_number = (unit_count as u32) + 1;
        let seed = manual_implement_assignment_seed(
            &self.work_units[wi],
            match &req.instructions {
                Some(s) => Some(s.as_str()),
                None => None,
            },
            copy_opt_string(&self.work_units[wi].latest_report_id),
        );
        let assignment = Assignment {
            id: new_assignment_id,
            work_unit_id: req.work_unit_id.clone(),
            worker_id: req.worker_id.clone(),
            worker_session_id: session_id,
            instructions: match &req.instructions {
                Some(s) => s.clone(),
                None => self.work_units[wi].task_statement.clone(),
            },
            communication_seed: Some(seed),
            status: AssignmentStatus::Created,
            attempt_number,
            created_at: now,
            updated_at: now,
        };
        let result = assignment.copy();
        let current = assignment.id.clone();
        let ghost a = assignment;
        upsert(&mut self.assignments, assignment);
        let ghost s0 = self.work_units@;
        let mut w = self.work_units.remove(wi);
        w.current_assignment_id = Some(current);
        w.status = WorkUnitStatus::Ready;
        w.updated_at = now;
        self.work_units.insert(wi, w);
        proof {
            assert(self.work_units@ =~= s0.update(wi as int, w));
            lemma_update_keyed(s0, wi as int, w);
            let wv = get(pre.work_units@, id@)->0;
            assert(mid.work_units == pre.work_units);
            assert(pos_of(mid.work_units@, id@) == Some(wi as int));
            assert(s0[wi as int] == wv);
            assert(count_pending(pre.assignments@, id@) == 0);
            assert(session_selected(pre, mid, req.worker_id@, kind_or_codex(req.worker_kind), now, new_session_id@, a.worker_session_id@));
            assert(new_assignment_ok(a, new_assignment_id@, *req, wv, a.worker_session_id@, count_of_unit(pre.assignments@, id@) as int + 1, now));
            assert(self.work_units@ == mid.work_units@.update(wi as int, WorkUnit {
                current_assignment_id: Some(a.id),
                status: WorkUnitStatus::Ready,
                updated_at: now,
                ..wv
            }));
        }
        Ok(PreparedAssignment { assignment: result, created_new: true })
    }
}

/// What storing an assignment's communication record `record` does, from `pre` to `post`,
/// answering `r`: an assignment with a record keeps it (`Ok(false)`); an unknown assignment is
/// refused; a record whose packet fails the packet checks is refused; otherwise the record is
/// stored (`Ok(true)`). Nothing else changes, and nothing changes on a refusal.
pub open spec fn record_stored(
    pre: CollaborationState,
    post: CollaborationState,
    record: AssignmentCommunicationRecord,
    r: Result<bool, OrcasError>,
) -> bool {
    if has(pre.assignment_communications@, record.assignment_id@) {
        r == Ok::<bool, OrcasError>(false) && post == pre
    } else if pos_of(pre.assignments@, record.assignment_id@) is None {
        r is Err && r->Err_0@ == OrcasErrorView::Protocol(
            "unknown assignment `"@ + record.assignment_id@ + "` for communication record"@,
        ) && post == pre
    } else {
        match packet_error(record.packet) {
            Some(m) => r is Err && r->Err_0@ == OrcasErrorView::Protocol(m) && post == pre,
            None => {
                &&& r == Ok::<bool, OrcasError>(true)
                &&& post.assignment_communications@ == pre.assignment_communications@.push(record)
                &&& post == (CollaborationState { assignment_communications: post.assignment_communications, ..pre })
            },
        }
    }
}

impl CollaborationState {
    /// Stores an assignment's communication record unless it has one already: an assignment
    /// with a record keeps it (`Ok(false)`); an unknown assignment is refused; a record whose
    /// packet fails the packet checks is refused; otherwise the record is stored (`Ok(true)`).
    /// Nothing else changes, and nothing changes on a refusal.
    pub fn ensure_assignment_communication_record(&mut self, record: AssignmentCommunicationRecord) -> (r: Result<
        bool,
        OrcasError,
    >)
        requires
            old(self).wf(),
        ensures
            final(self).wf(),
            record_stored(*old(self), *final(self), record, r),
    {
        if find(&self.assignment_communications, record.assignment_id.as_str()).is_some() {
            return Ok(false);
        }
        if find(&self.assignments, record.assignment_id.as_str()).is_none() {
            return Err(OrcasError::Protocol(cat3("unknown assignment `", record.assignment_id.as_str(), "` for communication record")));
        }
        validate_assignment_packet(&record.packet)?;
        upsert(&mut self.assignment_communications, record);
        Ok(true)
    }
}

impl CollaborationState {
    /// Prepares the assignment that starts a work unit, as `select_assignment` does, then stores
    /// its communication record unless it has one, as `build` makes the record for the prepared
    /// assignment (`ensure_assignment_communication_record`). A refused request changes nothing;
    /// a refused record is the answer, and the prepared assignment stays without one.
    pub fn prepare_assignment<F: Fn(&Assignment) -> AssignmentCommunicationRecord>(
        &mut self,
        req: &AssignmentStartRequest,
        now: i64,
        new_assignment_id: String,
        new_session_id: String,
        build: &F,
    ) -> (r: Result<PreparedAssignment, OrcasError>)
        requires
            old(self).wf(),
            old(self).assignments@.len() < u32::MAX,
            forall|a: Assignment| #[trigger] build.requires((&a,)),
            forall|a: Assignment, rec: AssignmentCommunicationRecord|
                #[trigger] build.ensures((&a,), rec) ==> rec.assignment_id@ == a.id@,
        ensures
            final(self).wf(),
            exists|mid: CollaborationState, r0: Result<PreparedAssignment, OrcasError>| {
                &&& #[trigger] assignment_selected(*old(self), mid, *req, now, new_assignment_id@, new_session_id@, r0)
                &&& match r0 {
                    Err(_) => r == r0 && *final(self) == mid,
                    Ok(p) => exists|rec: AssignmentCommunicationRecord, e: Result<bool, OrcasError>| {
                        &&& build.ensures((&p.assignment,), rec)
                        &&& #[trigger] record_stored(mid, *final(self), rec, e)
                        &&& e is Ok ==> r == r0
                        &&& e is Err ==> r is Err && r->Err_0 == e->Err_0
                    },
                }
            },
            r is Ok ==> has(final(self).assignment_communications@, r->Ok_0.assignment.id@),
    {
        let ghost pre = *self;
        let prepared = self.select_assignment(req, now, new_assignment_id, new_session_id);
        let ghost mid = *self;
        let ghost r0 = prepared;
        match prepared {
            Err(e) => {
                assert(assignment_selected(pre, mid, *req, now, new_assignment_id@, new_session_id@, r0));
                Err(e)
            },
            Ok(p) => {
                let rec = build(&p.assignment);
                let ghost grec = rec;
                let stored = self.ensure_assignment_communication_record(rec);
                proof {
                    assert(assignment_selected(pre, mid, *req, now, new_assignment_id@, new_session_id@, r0));
                    assert(record_stored(mid, *self, grec, stored));
                    if stored is Ok {
                        if pos_of(mid.assignment_communications@, grec.assignment_id@) is None {
                            let n = mid.assignment_communications@.len() as int;
                            assert(self.assignment_communications@[n].key() == p.assignment.id@);
                        }
                    }
                }
                match stored {
                    Ok(_) => Ok(p),
                    Err(e) => Err(e),
                }
            },
        }
    }
}

/// A start is refused, with a protocol error and the state unchanged, for an unknown work unit,
/// one that is not ready, one with an incomplete dependency, one with several unexecuted pending
/// assignments, and one whose single pending assignment is not its current and latest one; a
/// start goes on only for a unit with at most one pending assignment.
pub proof fn lemma_start_refusals(
    pre: CollaborationState,
    post: CollaborationState,
    req: AssignmentStartRequest,
    now: i64,
    new_assignment_id: Seq<char>,
    new_session_id: Seq<char>,
    r: Result<PreparedAssignment, OrcasError>,
)
    requires
        assignment_selected(pre, post, req, now, new_assignment_id, new_session_id, r),
    ensures
        ({
            let w = get(pre.work_units@, req.work_unit_id@);
            ||| w is None
            ||| w->0.status != WorkUnitStatus::Ready
            ||| !deps_satisfied(pre.work_units@, w->0.dependencies@)
            ||| count_pending(pre.assignments@, req.work_unit_id@) > 1
            ||| (count_pending(pre.assignments@, req.work_unit_id@) == 1 && !pending_resumable(pre, w->0))
        }) ==> (r is Err && r->Err_0@ is Protocol && post == pre),
        r is Ok ==> count_pending(pre.assignments@, req.work_unit_id@) <= 1,
{
}

} // verus!
