use vstd::prelude::*;

use super::assign::{kind_or_codex, record_stored, same_assignment};
use super::keyed::{find, get, has, keys_unique, lemma_update_keyed, pos_of, upsert, upserted, Keyed};
use super::outcome::assignment_marked;
use super::packets::{communication_record_from_seed, packet_built};
use super::seeds::{next_assignment_communication_seed, next_seed, opt_view};
use super::sessions::sessions_selected;
use super::status::blocked_refreshed;
use super::proposals::{marked_upto, stale_marked_all};
use super::status::workstreams_refreshed;
use super::types::{
    Assignment, AssignmentCommunicationRecord, AssignmentCommunicationSeed, AssignmentStatus, CollaborationLifecycleAction,
    CollaborationState, Decision, DecisionType, SupervisorProposalRecord, WorkUnit, Workstream,
};
use super::types::same_work_unit;
use crate::model::{copy_opt_string, OrcasError, OrcasErrorView, WorkUnitStatus, WorkstreamStatus};
use crate::text::{cat3, owned};

verus! {

/// A supervisor's decision on a work unit, as requested.
#[derive(Debug)]
pub struct DecisionApplyRequest {
    pub work_unit_id: String,
    pub report_id: Option<String>,
    pub decision_type: DecisionType,
    pub rationale: String,
    pub instructions: Option<String>,
    pub worker_id: Option<String>,
    pub worker_kind: Option<String>,
}

/// What applying a decision produced.
#[derive(Debug)]
pub struct DecisionApplied {
    pub decision: Decision,
    pub next_assignment: Option<Assignment>,
    pub closed_assignment: Option<Assignment>,
}

/// The status a decision without a follow-up assignment leaves a work unit in.
pub open spec fn terminal_status(t: DecisionType) -> WorkUnitStatus {
    match t {
        DecisionType::Accept => WorkUnitStatus::Accepted,
        DecisionType::MarkComplete => WorkUnitStatus::Completed,
        _ => WorkUnitStatus::NeedsHuman,
    }
}

/// Whether a decision continues the work with a new assignment.
pub open spec fn continues(t: DecisionType) -> bool {
    t == DecisionType::Continue || t == DecisionType::Redirect
}

/// The assignments after the unit's current assignment, if there is one, is closed.
pub open spec fn current_closed(pre: Seq<Assignment>, post: Seq<Assignment>, current: Option<String>, now: i64) -> bool {
    match current {
        Some(id) => assignment_marked(pre, post, id@, AssignmentStatus::Closed, now),
        None => post == pre,
    }
}

/// The decision recorded.
pub open spec fn decision_ok(d: Decision, id: Seq<char>, req: DecisionApplyRequest, w: WorkUnit, now: i64) -> bool {
    &&& d.id@ == id
    &&& d.work_unit_id == req.work_unit_id
    &&& d.report_id == (if req.report_id is Some { req.report_id } else { w.latest_report_id })
    &&& d.decision_type == req.decision_type
    &&& d.rationale == req.rationale
    &&& d.created_at == now
}

/// The assignment a continuing decision creates.
pub open spec fn successor_ok(
    a: Assignment,
    id: Seq<char>,
    req: DecisionApplyRequest,
    w: WorkUnit,
    source: Assignment,
    seed: SeedViewAlias,
    session_id: Seq<char>,
    now: i64,
) -> bool {
    &&& a.id@ == id
    &&& a.work_unit_id == req.work_unit_id
    &&& a.worker_id@ == worker_or(req.worker_id, source)
    &&& a.worker_session_id@ == session_id
    &&& a.instructions@ == (if req.instructions is Some { req.instructions->0@ } else { source.instructions@ })
    &&& a.communication_seed is Some
    &&& a.communication_seed->0@ == seed
    &&& a.status == AssignmentStatus::Created
    &&& a.attempt_number == source.attempt_number + 1
    &&& a.created_at == now
    &&& a.updated_at == now
}

pub type SeedViewAlias = super::seeds::SeedView;

/// The worker asked for, else the source assignment's.
pub open spec fn worker_or(worker_id: Option<String>, source: Assignment) -> Seq<char> {
    if worker_id is Some {
        worker_id->0@
    } else {
        source.worker_id@
    }
}

/// The unit's current assignment after it was closed, if it exists.
pub open spec fn source_assignment(closed: Seq<Assignment>, w: WorkUnit) -> Option<Assignment> {
    match w.current_assignment_id {
        Some(id) => get(closed, id@),
        None => None,
    }
}

/// What a decision did to the state, given the assignments after closing the unit's current one
/// and the decision recorded.
pub open spec fn decision_effect(
    pre: CollaborationState,
    post: CollaborationState,
    r: Result<DecisionApplied, OrcasError>,
    req: DecisionApplyRequest,
    explicit_seed: Option<AssignmentCommunicationSeed>,
    now: i64,
    decision_id: Seq<char>,
    new_assignment_id: Seq<char>,
    new_session_id: Seq<char>,
    w: WorkUnit,
    closed: Seq<Assignment>,
    d: Decision,
) -> bool {
    &&& current_closed(pre.assignments@, closed, w.current_assignment_id, now)
    &&& decision_ok(d, decision_id, req, w, now)
    &&& post.decisions@ == upserted(pre.decisions@, d)
    &&& post.workstreams == pre.workstreams
    &&& post.reports == pre.reports
    &&& post.supervisor_proposals == pre.supervisor_proposals
    &&& post.assignment_communications == pre.assignment_communications
    &&& if !continues(req.decision_type) {
        &&& r is Ok
        &&& r->Ok_0.decision == d
        &&& r->Ok_0.next_assignment is None
        &&& post.assignments@ == closed
        &&& post.workers == pre.workers
        &&& post.worker_sessions == pre.worker_sessions
        &&& post.work_units@ == blocked_refreshed(
            pre.work_units@.update(
                pos_of(pre.work_units@, req.work_unit_id@)->0,
                WorkUnit { status: terminal_status(req.decision_type), current_assignment_id: None, updated_at: now, ..w },
            ),
            now,
        )
    } else {
        match source_assignment(closed, w) {
            None => {
                &&& r is Err
                &&& r->Err_0@ == OrcasErrorView::Protocol("continue/redirect requires an existing assignment"@)
                &&& post.assignments@ == closed
                &&& post.work_units == pre.work_units
                &&& post.workers == pre.workers
                &&& post.worker_sessions == pre.worker_sessions
            },
            Some(src) => exists|sid: Seq<char>, a: Assignment| #[trigger] continuation_effect(
                pre, post, r, req, explicit_seed, now, new_assignment_id, new_session_id, w, closed, d, src, sid, a,
            ),
        }
    }
}

/// What a continuing decision did, given the session selected and the assignment created.
pub open spec fn continuation_effect(
    pre: CollaborationState,
    post: CollaborationState,
    r: Result<DecisionApplied, OrcasError>,
    req: DecisionApplyRequest,
    explicit_seed: Option<AssignmentCommunicationSeed>,
    now: i64,
    new_assignment_id: Seq<char>,
    new_session_id: Seq<char>,
    w: WorkUnit,
    closed: Seq<Assignment>,
    d: Decision,
    src: Assignment,
    sid: Seq<char>,
    a: Assignment,
) -> bool {
    &&& sessions_selected(pre.workers@, post.workers@, pre.worker_sessions, post.worker_sessions, worker_or(req.worker_id, src), kind_or_codex(req.worker_kind), now, new_session_id, sid)
    &&& successor_ok(a, new_assignment_id, req, w, src, next_seed(
        w,
        src,
        get(pre.assignment_communications@, src.id@),
        opt_view(d.report_id),
        d.id@,
        opt_view(req.instructions),
        explicit_seed,
    ), sid, now)
    &&& post.assignments@ == upserted(closed, a)
    &&& post.work_units@ == blocked_refreshed(
        pre.work_units@.update(
            pos_of(pre.work_units@, req.work_unit_id@)->0,
            WorkUnit { status: WorkUnitStatus::Ready, current_assignment_id: Some(a.id), updated_at: now, ..w },
        ),
        now,
    )
    &&& r is Ok
    &&& r->Ok_0.decision == d
    &&& r->Ok_0.next_assignment is Some
    &&& same_assignment(r->Ok_0.next_assignment->0, a)
}

/// What applying a decision did: an unknown work unit is refused and nothing changes; otherwise
/// the effect above, for the assignments after closing and the decision recorded.
pub open spec fn decision_applied(
    pre: CollaborationState,
    post: CollaborationState,
    r: Result<DecisionApplied, OrcasError>,
    req: DecisionApplyRequest,
    explicit_seed: Option<AssignmentCommunicationSeed>,
    now: i64,
    decision_id: Seq<char>,
    new_assignment_id: Seq<char>,
    new_session_id: Seq<char>,
) -> bool {
    match get(pre.work_units@, req.work_unit_id@) {
        None => r is Err && r->Err_0@ == OrcasErrorView::Protocol("unknown work unit `"@ + req.work_unit_id@ + "`"@)
            && post == pre,
        Some(w) => exists|closed: Seq<Assignment>, d: Decision| #[trigger] decision_effect(
            pre, post, r, req, explicit_seed, now, decision_id, new_assignment_id, new_session_id, w, closed, d,
        ),
    }
}

/// What a decision produced, with the work unit and workstream as they stand after it.
#[derive(Debug)]
pub struct DecisionOutcome {
    pub decision: Decision,
    pub work_unit: WorkUnit,
    pub next_assignment: Option<Assignment>,
    pub closed_assignment: Option<Assignment>,
    pub work_unit_action: CollaborationLifecycleAction,
    pub workstream: Workstream,
    pub workstream_action: CollaborationLifecycleAction,
    pub stale_proposals: Vec<SupervisorProposalRecord>,
}

/// How a work unit's change is announced after a decision.
pub open spec fn unit_action(s: WorkUnitStatus) -> CollaborationLifecycleAction {
    match s {
        WorkUnitStatus::Completed => CollaborationLifecycleAction::Completed,
        WorkUnitStatus::NeedsHuman => CollaborationLifecycleAction::Escalated,
        _ => CollaborationLifecycleAction::Updated,
    }
}

/// How a workstream's change is announced after a decision.
pub open spec fn stream_action(s: WorkstreamStatus) -> CollaborationLifecycleAction {
    match s {
        WorkstreamStatus::Completed => CollaborationLifecycleAction::Completed,
        WorkstreamStatus::Blocked => CollaborationLifecycleAction::Escalated,
        _ => CollaborationLifecycleAction::Updated,
    }
}

/// What follows an applied decision: the unit's proposals are refreshed for staleness and the
/// workstreams' statuses recomputed; then the unit and its workstream are read back.
pub open spec fn decision_finished(
    mid: CollaborationState,
    post: CollaborationState,
    applied: DecisionApplied,
    r: Result<DecisionOutcome, OrcasError>,
    work_unit_id: Seq<char>,
    now: i64,
) -> bool {
    &&& stale_marked_all(mid, mid.supervisor_proposals@, post.supervisor_proposals@, work_unit_id)
    &&& post.workstreams@ == workstreams_refreshed(mid.workstreams@, mid.work_units@, now)
    &&& post.work_units == mid.work_units
    &&& post.workers == mid.workers
    &&& post.worker_sessions == mid.worker_sessions
    &&& post.assignments == mid.assignments
    &&& post.reports == mid.reports
    &&& post.decisions == mid.decisions
    &&& post.assignment_communications == mid.assignment_communications
    &&& match get(post.work_units@, work_unit_id) {
        None => r is Err && r->Err_0@ == OrcasErrorView::Protocol("unknown work unit `"@ + work_unit_id + "`"@),
        Some(w) => match get(post.workstreams@, w.workstream_id@) {
            None => r is Err && r->Err_0@ == OrcasErrorView::Protocol("unknown workstream `"@ + w.workstream_id@ + "`"@),
            Some(ws) => {
                &&& r is Ok
                &&& r->Ok_0.decision == applied.decision
                &&& same_work_unit(r->Ok_0.work_unit, w)
                &&& r->Ok_0.next_assignment == applied.next_assignment
                &&& r->Ok_0.closed_assignment == applied.closed_assignment
                &&& r->Ok_0.work_unit_action == unit_action(w.status)
                &&& r->Ok_0.workstream == ws
                &&& r->Ok_0.workstream_action == stream_action(ws.status)
                &&& r->Ok_0.stale_proposals@ == marked_upto(
                    mid, mid.supervisor_proposals@, post.supervisor_proposals@, work_unit_id,
                    mid.supervisor_proposals@.len() as int,
                )
            },
        },
    }
}

/// The whole of applying a decision: the decision itself, then, where it succeeded, what follows.
pub open spec fn decision_flow(
    pre: CollaborationState,
    post: CollaborationState,
    r: Result<DecisionOutcome, OrcasError>,
    req: DecisionApplyRequest,
    explicit_seed: Option<AssignmentCommunicationSeed>,
    now: i64,
    decision_id: Seq<char>,
    new_assignment_id: Seq<char>,
    new_session_id: Seq<char>,
) -> bool {
    exists|mid: CollaborationState, r0: Result<DecisionApplied, OrcasError>| {
        &&& #[trigger] decision_applied(pre, mid, r0, req, explicit_seed, now, decision_id, new_assignment_id, new_session_id)
        &&& mid.wf()
        &&& match r0 {
            Err(e) => r is Err && r->Err_0 == e && post == mid,
            Ok(a) => decision_finished(mid, post, a, r, req.work_unit_id@, now),
        }
    }
}

impl CollaborationState {
    /// Applies a decision and finishes it: proposals of the work unit that no longer fit are
    /// marked stale, workstream statuses recomputed, and the outcome read back with how the work
    /// unit and its workstream are announced.
    pub fn decide(
        &mut self,
        req: &DecisionApplyRequest,
        explicit_seed: Option<AssignmentCommunicationSeed>,
        now: i64,
        decision_id: String,
        new_assignment_id: String,
        new_session_id: String,
    ) -> (r: Result<DecisionOutcome, OrcasError>)
        requires
            old(self).wf(),
            forall|i: int| 0 <= i < old(self).assignments@.len() ==> (#[trigger] old(self).assignments@[i]).attempt_number < u32::MAX,
        ensures
            final(self).wf(),
            decision_flow(*old(self), *final(self), r, *req, explicit_seed, now, decision_id@, new_assignment_id@, new_session_id@),
    {
        let ghost pre = *self;
        let ghost ids = (decision_id@, new_assignment_id@, new_session_id@);
        let r0 = self.apply_decision(req, explicit_seed, now, decision_id, new_assignment_id, new_session_id);
        let ghost mid = *self;
        let ghost g0 = r0;
        let applied = match r0 {
            Err(e) => {
                assert(decision_applied(pre, mid, g0, *req, explicit_seed, now, ids.0, ids.1, ids.2));
                return Err(e);
            },
            Ok(a) => a,
        };
        let stale = self.refresh_stale_proposals_for_work_unit(req.work_unit_id.as_str());
        self.refresh_workstream_statuses(now);
        let ghost fin = *self;
        let wi = match find(&self.work_units, req.work_unit_id.as_str()) {
            None => {
                let r = Err(OrcasError::Protocol(cat3("unknown work unit `", req.work_unit_id.as_str(), "`")));
                assert(decision_finished(mid, fin, applied, r, req.work_unit_id@, now));
                assert(decision_applied(pre, mid, g0, *req, explicit_seed, now, ids.0, ids.1, ids.2));
                return r;
            },
            Some(i) => i,
        };
        let work_unit = self.work_units[wi].copy();
        let si = match find(&self.workstreams, work_unit.workstream_id.as_str()) {
            None => {
                let r = Err(OrcasError::Protocol(cat3("unknown workstream `", work_unit.workstream_id.as_str(), "`")));
                assert(decision_finished(mid, fin, applied, r, req.work_unit_id@, now));
                assert(decision_applied(pre, mid, g0, *req, explicit_seed, now, ids.0, ids.1, ids.2));
                return r;
            },
            Some(j) => j,
        };
        let workstream = self.workstreams[si].copy();
        let work_unit_action = match work_unit.status {
            WorkUnitStatus::Completed => CollaborationLifecycleAction::Completed,
            WorkUnitStatus::NeedsHuman => CollaborationLifecycleAction::Escalated,
            _ => CollaborationLifecycleAction::Updated,
        };
        let workstream_action = match workstream.status {
            WorkstreamStatus::Completed => CollaborationLifecycleAction::Completed,
            WorkstreamStatus::Blocked => CollaborationLifecycleAction::Escalated,
            _ => CollaborationLifecycleAction::Updated,
        };
        let r = Ok(DecisionOutcome {
            decision: applied.decision,
            work_unit,
            next_assignment: applied.next_assignment,
            closed_assignment: applied.closed_assignment,
            work_unit_action,
            workstream,
            workstream_action,
            stale_proposals: stale,
        });
        assert(decision_finished(mid, fin, g0->Ok_0, r, req.work_unit_id@, now));
        assert(decision_applied(pre, mid, g0, *req, explicit_seed, now, ids.0, ids.1, ids.2));
        r
    }

    /// Applies a supervisor decision to a work unit: its current assignment is closed and the
    /// decision recorded; accepting, completing or escalating settles the unit, while continuing
    /// or redirecting creates the next assignment (on a selected session, with a seed derived from
    /// the closed one) and readies the unit; then blocked units are refreshed.
    pub fn apply_decision(
        &mut self,
        req: &DecisionApplyRequest,
        explicit_seed: Option<AssignmentCommunicationSeed>,
        now: i64,
        decision_id: String,
        new_assignment_id: String,
        new_session_id: String,
    ) -> (r: Result<DecisionApplied, OrcasError>)
        requires
            old(self).wf(),
            forall|i: int| 0 <= i < old(self).assignments@.len() ==> (#[trigger] old(self).assignments@[i]).attempt_number < u32::MAX,
        ensures
            final(self).wf(),
            decision_applied(*old(self), *final(self), r, *req, explicit_seed, now, decision_id@, new_assignment_id@, new_session_id@),
    {
        let wi = match find(&self.work_units, req.work_unit_id.as_str()) {
            Some(i) => i,
            None => {
                return Err(OrcasError::Protocol(cat3("unknown work unit `", req.work_unit_id.as_str(), "`")));
            },
        };
        let ghost pre = *self;
        let ghost w = self.work_units@[wi as int];
        let current = copy_opt_string(&self.work_units[wi].current_assignment_id);
        let latest_report = copy_opt_string(&self.work_units[wi].latest_report_id);
        let closed_assignment = match &current {
            Some(id) => match self.set_assignment_closed(id.as_str(), now) {
                Some(p) => Some(self.assignments[p].copy()),
                None => None,
            },
            None => None,
        };
        let ghost closed = self.assignments@;
        let decision = Decision {
            id: decision_id,
            work_unit_id: req.work_unit_id.clone(),
            report_id: match &req.report_id {
                Some(r) => Some(r.clone()),
                None => latest_report,
            },
            decision_type: req.decision_type,
            rationale: req.rationale.clone(),
            created_at: now,
        };
        let ghost d = decision;
        let report_for_seed = copy_opt_string(&decision.report_id);
        let decision_id_copy = decision.id.clone();
        let result_decision = Decision {
            id: decision.id.clone(),
            work_unit_id: decision.work_unit_id.clone(),
            report_id: copy_opt_string(&decision.report_id),
            decision_type: decision.decision_type,
            rationale: decision.rationale.clone(),
            created_at: decision.created_at,
        };
        upsert(&mut self.decisions, decision);
        match req.decision_type {
            DecisionType::Accept | DecisionType::MarkComplete | DecisionType::EscalateToHuman => {
                let status = match req.decision_type {
                    DecisionType::Accept => WorkUnitStatus::Accepted,
                    DecisionType::MarkComplete => WorkUnitStatus::Completed,
                    _ => WorkUnitStatus::NeedsHuman,
                };
                let ghost s0 = self.work_units@;
                let mut u = self.work_units.remove(wi);
                u.status = status;
                u.current_assignment_id = None;
                u.updated_at = now;
                self.work_units.insert(wi, u);
                proof {
                    assert(self.work_units@ =~= s0.update(wi as int, u));
                    lemma_update_keyed(s0, wi as int, u);
                }
                let ghost before_refresh = self.work_units@;
                self.refresh_blocked_work_units(now);
                let r = Ok(DecisionApplied { decision: result_decision, next_assignment: None, closed_assignment });
                proof {
                    assert(pos_of(pre.work_units@, req.work_unit_id@) == Some(wi as int));
                    assert(before_refresh == pre.work_units@.update(wi as int, WorkUnit { status: terminal_status(req.decision_type), current_assignment_id: None, updated_at: now, ..w }));
                    assert(decision_effect(pre, *self, r, *req, explicit_seed, now, decision_id@, new_assignment_id@, new_session_id@, w, closed, d));
                }
                r
            },
            DecisionType::Continue | DecisionType::Redirect => {
                let sp = match &current {
                    Some(id) => find(&self.assignments, id.as_str()),
                    None => None,
                };
                let sp = match sp {
                    Some(p) => p,
                    None => {
                        let r = Err(OrcasError::Protocol(owned("continue/redirect requires an existing assignment")));
                        proof {
                            assert(decision_effect(pre, *self, r, *req, explicit_seed, now, decision_id@, new_assignment_id@, new_session_id@, w, closed, d));
                        }
                        return r;
                    },
                };
                let ghost src = self.assignments@[sp as int];
                let source = self.assignments[sp].copy();
                let seed = {
                    let record = match find(&self.assignment_communications, source.id.as_str()) {
                        Some(k) => Some(&self.assignment_communications[k]),
                        None => None,
                    };
                    next_assignment_communication_seed(
                        &self.work_units[wi],
                        &self.assignments[sp],
                        record,
                        report_for_seed,
                        decision_id_copy.as_str(),
                        match &req.instructions {
                            Some(s) => Some(s.as_str()),
                            None => None,
                        },
                        explicit_seed,
                    )
                };
                let worker_id = match &req.worker_id {
                    Some(x) => x.clone(),
                    None => source.worker_id.clone(),
                };
                let kind = match &req.worker_kind {
                    Some(k) => k.clone(),
                    None => owned("codex"),
                };
                let ghost before_select = *self;
                let session_id = self.select_worker_session_for_assignment(worker_id.as_str(), kind, now, new_session_id);
                let ghost mid = *self;
                let assignment = Assignment {
                    id: new_assignment_id,
                    work_unit_id: req.work_unit_id.clone(),
                    worker_id,
                    worker_session_id: session_id,
                    instructions: match &req.instructions {
                        Some(s) => s.clone(),
                        None => source.instructions.clone(),
                    },
                    communication_seed: Some(seed),
                    status: AssignmentStatus::Created,
                    attempt_number: source.attempt_number + 1,
                    created_at: now,
                    updated_at: now,
                };
                let result = assignment.copy();
                let next_id = assignment.id.clone();
                let ghost a = assignment;
                upsert(&mut self.assignments, assignment);
                let ghost s0 = self.work_units@;
                let mut u = self.work_units.remove(wi);
                u.status = WorkUnitStatus::Ready;
                u.current_assignment_id = Some(next_id);
                u.updated_at = now;
                self.work_units.insert(wi, u);
                proof {
                    assert(self.work_units@ =~= s0.update(wi as int, u));
                    lemma_update_keyed(s0, wi as int, u);
                }
                self.refresh_blocked_work_units(now);
                let r = Ok(DecisionApplied { decision: result_decision, next_assignment: Some(result), closed_assignment });
                proof {
                    assert(sessions_selected(pre.workers@, self.workers@, pre.worker_sessions, self.worker_sessions, a.worker_id@, kind_or_codex(req.worker_kind), now, new_session_id@, a.worker_session_id@));
                    assert(continuation_effect(pre, *self, r, *req, explicit_seed, now, new_assignment_id@, new_session_id@, w, closed, d, src, a.worker_session_id@, a));
                    assert(decision_effect(pre, *self, r, *req, explicit_seed, now, decision_id@, new_assignment_id@, new_session_id@, w, closed, d));
                }
                r
            },
        }
    }

    fn set_assignment_closed(&mut self, id: &str, now: i64) -> (r: Option<usize>)
        requires
            old(self).wf(),
        ensures
            final(self).wf(),
            assignment_marked(old(self).assignments@, final(self).assignments@, id@, AssignmentStatus::Closed, now),
            forall|x: Seq<char>| #[trigger] pos_of(final(self).assignments@, x) == pos_of(old(self).assignments@, x),
            r == match pos_of(old(self).assignments@, id@) { Some(p) => Some(p as usize), None => None },
            final(self).workstreams == old(self).workstreams,
            final(self).work_units == old(self).work_units,
            final(self).workers == old(self).workers,
            final(self).worker_sessions == old(self).worker_sessions,
            final(self).reports == old(self).reports,
            final(self).decisions == old(self).decisions,
            final(self).supervisor_proposals == old(self).supervisor_proposals,
            final(self).assignment_communications == old(self).assignment_communications,
    {
        match find(&self.assignments, id) {
            None => None,
            Some(p) => {
                let ghost s0 = self.assignments@;
                let mut a = self.assignments.remove(p);
                a.status = AssignmentStatus::Closed;
                a.updated_at = now;
                self.assignments.insert(p, a);
                proof {
                    assert(self.assignments@ =~= s0.update(p as int, a));
                    lemma_update_keyed(s0, p as int, a);
                }
                Some(p)
            },
        }
    }
}

/// What `decision_apply` did: the decision as `decide` applies it (state `mid`, answer `r0`),
/// then, for a next assignment, the record `build` made for it stored as
/// `ensure_assignment_communication_record` stores one, a refused record being the answer.
pub open spec fn decision_recorded<F: Fn(&Assignment) -> AssignmentCommunicationRecord>(
    pre: CollaborationState,
    post: CollaborationState,
    r: Result<DecisionOutcome, OrcasError>,
    req: DecisionApplyRequest,
    explicit_seed: Option<AssignmentCommunicationSeed>,
    now: i64,
    decision_id: Seq<char>,
    new_assignment_id: Seq<char>,
    new_session_id: Seq<char>,
    build: &F,
) -> bool {
    exists|mid: CollaborationState, r0: Result<DecisionOutcome, OrcasError>| {
        &&& #[trigger] decision_flow(pre, mid, r0, req, explicit_seed, now, decision_id, new_assignment_id, new_session_id)
        &&& match r0 {
            Ok(o) if o.next_assignment is Some => exists|rec: AssignmentCommunicationRecord, e: Result<bool, OrcasError>| {
                &&& build.ensures((&o.next_assignment->0,), rec)
                &&& #[trigger] record_stored(mid, post, rec, e)
                &&& e is Ok ==> r == r0
                &&& e is Err ==> r is Err && r->Err_0 == e->Err_0
            },
            _ => r == r0 && post == mid,
        }
    }
}

impl CollaborationState {
    /// Applies a decision and finishes it, as `decide` does; when the decision continues the work,
    /// the next assignment then gets its communication record unless it has one, as `build`
    /// makes the record for it (`ensure_assignment_communication_record`). A refused record is
    /// the answer, and the decision stays applied.
    pub fn decision_apply<F: Fn(&Assignment) -> AssignmentCommunicationRecord>(
        &mut self,
        req: &DecisionApplyRequest,
        explicit_seed: Option<AssignmentCommunicationSeed>,
        now: i64,
        decision_id: String,
        new_assignment_id: String,
        new_session_id: String,
        build: &F,
    ) -> (r: Result<DecisionOutcome, OrcasError>)
        requires
            old(self).wf(),
            forall|i: int| 0 <= i < old(self).assignments@.len() ==> (#[trigger] old(self).assignments@[i]).attempt_number < u32::MAX,
            forall|a: Assignment| #[trigger] build.requires((&a,)),
            forall|a: Assignment, rec: AssignmentCommunicationRecord|
                #[trigger] build.ensures((&a,), rec) ==> rec.assignment_id@ == a.id@,
        ensures
            final(self).wf(),
            decision_recorded(*old(self), *final(self), r, *req, explicit_seed, now, decision_id@, new_assignment_id@, new_session_id@, build),
            r is Ok && r->Ok_0.next_assignment is Some
                ==> has(final(self).assignment_communications@, r->Ok_0.next_assignment->0.id@),
    {
        let ghost pre = *self;
        let ghost ids = (decision_id@, new_assignment_id@, new_session_id@);
        let ghost seed0 = explicit_seed;
        let out = self.decide(req, explicit_seed, now, decision_id, new_assignment_id, new_session_id);
        let ghost mid = *self;
        let ghost r0 = out;
        proof {
            assert(decision_flow(pre, mid, r0, *req, seed0, now, ids.0, ids.1, ids.2));
        }
        match out {
            Err(e) => Err(e),
            Ok(o) => {
                match &o.next_assignment {
                    None => Ok(o),
                    Some(n) => {
                        let rec = build(n);
                        let ghost grec = rec;
                        let stored = self.ensure_assignment_communication_record(rec);
                        proof {
                            assert(record_stored(mid, *self, grec, stored));
                            if stored is Ok {
                                if pos_of(mid.assignment_communications@, grec.assignment_id@) is None {
                                    let k = mid.assignment_communications@.len() as int;
                                    assert(self.assignment_communications@[k].key() == n.id@);
                                }
                            }
                        }
                        match stored {
                            Ok(_) => Ok(o),
                            Err(e) => Err(e),
                        }
                    },
                }
            },
        }
    }
}

/// A record made from an assignment's seed: its packet is the one `packet_from_seed` builds
/// under `packet_id`, and nothing has come back yet.
pub open spec fn seeded_record(rec: AssignmentCommunicationRecord, a: Assignment, packet_id: Seq<char>) -> bool {
    &&& rec.assignment_id@ == a.id@
    &&& packet_built(rec.packet, a.id@, packet_id, a.communication_seed->0@)
    &&& rec.response_envelope is None
    &&& rec.validation is None
    &&& rec.raw_output_hash is None
}

impl CollaborationState {
    /// Applies a decision and finishes it, as `decide` does; when the decision continues the work,
    /// the next assignment's communication packet is built from its seed (the explicit seed or
    /// the one derived from the decision) under `packet_id`, and its record stored unless it has
    /// one. A refused record is the answer, and the decision stays applied.
    pub fn decision_apply_with_seed(
        &mut self,
        req: &DecisionApplyRequest,
        explicit_seed: Option<AssignmentCommunicationSeed>,
        now: i64,
        decision_id: String,
        new_assignment_id: String,
        new_session_id: String,
        packet_id: String,
    ) -> (r: Result<DecisionOutcome, OrcasError>)
        requires
            old(self).wf(),
            forall|i: int| 0 <= i < old(self).assignments@.len() ==> (#[trigger] old(self).assignments@[i]).attempt_number < u32::MAX,
        ensures
            final(self).wf(),
            exists|mid: CollaborationState, r0: Result<DecisionOutcome, OrcasError>| {
                &&& #[trigger] decision_flow(*old(self), mid, r0, *req, explicit_seed, now, decision_id@, new_assignment_id@, new_session_id@)
                &&& match r0 {
                    Ok(o) if o.next_assignment is Some && o.next_assignment->0.communication_seed is Some =>
                        exists|rec: AssignmentCommunicationRecord, e: Result<bool, OrcasError>| {
                            &&& seeded_record(rec, o.next_assignment->0, packet_id@)
                            &&& #[trigger] record_stored(mid, *final(self), rec, e)
                            &&& e is Ok ==> r == r0
                            &&& e is Err ==> r is Err && r->Err_0 == e->Err_0
                        },
                    _ => r == r0 && *final(self) == mid,
                }
            },
    {
        let ghost pre = *self;
        let ghost ids = (decision_id@, new_assignment_id@, new_session_id@);
        let ghost seed0 = explicit_seed;
        let out = self.decide(req, explicit_seed, now, decision_id, new_assignment_id, new_session_id);
        let ghost mid = *self;
        let ghost r0 = out;
        proof {
            assert(decision_flow(pre, mid, r0, *req, seed0, now, ids.0, ids.1, ids.2));
        }
        match out {
            Err(e) => Err(e),
            Ok(o) => {
                match &o.next_assignment {
                    None => Ok(o),
                    Some(n) => match &n.communication_seed {
                        None => Ok(o),
                        Some(seed) => {
                            let rec = communication_record_from_seed(n.id.as_str(), packet_id, seed);
                            let ghost grec = rec;
                            let stored = self.ensure_assignment_communication_record(rec);
                            proof {
                                assert(seeded_record(grec, *n, packet_id@));
                                assert(record_stored(mid, *self, grec, stored));
                            }
                            match stored {
                                Ok(_) => Ok(o),
                                Err(e) => Err(e),
                            }
                        },
                    },
                }
            },
        }
    }
}

} // verus!
