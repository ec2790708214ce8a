use vstd::prelude::*;

use super::keyed::{find, get, has, keys_unique, lemma_update_keyed, pos_of, upsert, upserted, Keyed};
use super::assign::same_assignment;
use super::status::workstreams_refreshed;
use super::types::{
    same_report,
    Assignment, AssignmentCommunicationRecord, AssignmentStatus, CollaborationState, Report,
    WorkUnit, Worker, WorkerSession, WorkerSessionAttachability, WorkerSessionRuntimeStatus,
    WorkerStatus,
};
use crate::assignment_comm::parse::{
    extraction_of, parse_outcome, parse_worker_report_for_turn, turn_outcome, ParsedWorkerReport,
};
use crate::assignment_comm::{AssignmentCommunicationPacket, EnvelopeExtraction, WorkerReportEnvelope};
use crate::model::{OrcasError, OrcasErrorView, TurnLifecycleState, WorkUnitStatus};
use crate::runtime::digest::AssignmentLifecycleAction;
use crate::text::{cat3, owned};

verus! {

/// `post` is `pre` with only position `p` changed.
pub open spec fn changed_at<T>(pre: Seq<T>, post: Seq<T>, p: int) -> bool {
    &&& post.len() == pre.len()
    &&& forall|i: int| 0 <= i < pre.len() && i != p ==> post[i] == pre[i]
}

/// The worker released: idle, with no assignment.
pub open spec fn worker_released(pre: Seq<Worker>, post: Seq<Worker>, worker_id: Seq<char>) -> bool {
    match pos_of(pre, worker_id) {
        None => post == pre,
        Some(p) => post == pre.update(p, Worker { status: WorkerStatus::Idle, current_assignment_id: None, ..pre[p] }),
    }
}

/// The assignment's status set at `now`.
pub open spec fn assignment_marked(pre: Seq<Assignment>, post: Seq<Assignment>, id: Seq<char>, status: AssignmentStatus, now: i64) -> bool {
    match pos_of(pre, id) {
        None => post == pre,
        Some(p) => post == pre.update(p, Assignment { status, updated_at: now, ..pre[p] }),
    }
}

/// The work unit waits for a decision on the assignment, with the report if one is given.
pub open spec fn unit_awaiting(w: WorkUnit, pre: WorkUnit, assignment_id: Seq<char>, report_id: Option<Seq<char>>, now: i64) -> bool {
    &&& w.id == pre.id
    &&& w.workstream_id == pre.workstream_id
    &&& w.title == pre.title
    &&& w.task_statement == pre.task_statement
    &&& w.dependencies == pre.dependencies
    &&& w.created_at == pre.created_at
    &&& w.status == WorkUnitStatus::AwaitingDecision
    &&& w.current_assignment_id is Some && w.current_assignment_id->0@ == assignment_id
    &&& match report_id {
        Some(rid) => w.latest_report_id is Some && w.latest_report_id->0@ == rid,
        None => w.latest_report_id == pre.latest_report_id,
    }
    &&& w.updated_at == now
}

/// The table of work units after the unit `id` waits for a decision.
pub open spec fn units_awaiting(pre: Seq<WorkUnit>, post: Seq<WorkUnit>, id: Seq<char>, assignment_id: Seq<char>, report_id: Option<Seq<char>>, now: i64) -> bool {
    match pos_of(pre, id) {
        None => post == pre,
        Some(p) => changed_at(pre, post, p) && unit_awaiting(post[p], pre[p], assignment_id, report_id, now),
    }
}

/// The table of sessions after the session `id` is updated as `f` says.
pub open spec fn session_updated(pre: Seq<WorkerSession>, post: Seq<WorkerSession>, id: Seq<char>, f: spec_fn(WorkerSession) -> WorkerSession) -> bool {
    match pos_of(pre, id) {
        None => post == pre,
        Some(p) => post == pre.update(p, f(pre[p])),
    }
}

/// A session whose start failed: no active turn; lost with its thread when the thread is gone,
/// else failed and attachable only perhaps.
pub open spec fn session_start_failed(s: WorkerSession, anchor_lost: bool, now: i64) -> WorkerSession {
    if anchor_lost {
        WorkerSession {
            active_turn_id: None,
            thread_id: None,
            runtime_status: WorkerSessionRuntimeStatus::Lost,
            attachability: WorkerSessionAttachability::NotAttachable,
            updated_at: now,
            ..s
        }
    } else {
        WorkerSession {
            active_turn_id: None,
            runtime_status: WorkerSessionRuntimeStatus::Failed,
            attachability: if s.thread_id is Some {
                WorkerSessionAttachability::Unknown
            } else {
                WorkerSessionAttachability::NotAttachable
            },
            updated_at: now,
            ..s
        }
    }
}

/// A session whose runtime was lost.
pub open spec fn session_lost(s: WorkerSession, now: i64) -> WorkerSession {
    WorkerSession {
        active_turn_id: None,
        thread_id: None,
        runtime_status: WorkerSessionRuntimeStatus::Lost,
        attachability: WorkerSessionAttachability::NotAttachable,
        updated_at: now,
        ..s
    }
}

/// A session whose turn ended as the lifecycle says.
pub open spec fn session_after_turn(s: WorkerSession, lifecycle: TurnLifecycleState, attachable: bool, now: i64) -> WorkerSession {
    WorkerSession {
        active_turn_id: None,
        runtime_status: match lifecycle {
            TurnLifecycleState::Interrupted => WorkerSessionRuntimeStatus::Interrupted,
            TurnLifecycleState::Lost | TurnLifecycleState::Unknown => WorkerSessionRuntimeStatus::Lost,
            _ => WorkerSessionRuntimeStatus::Completed,
        },
        attachability: if attachable {
            WorkerSessionAttachability::Attachable
        } else {
            WorkerSessionAttachability::NotAttachable
        },
        updated_at: now,
        ..s
    }
}

/// The assignment status a turn's end gives.
pub open spec fn assignment_status_after_turn(lifecycle: TurnLifecycleState) -> AssignmentStatus {
    match lifecycle {
        TurnLifecycleState::Interrupted => AssignmentStatus::Interrupted,
        TurnLifecycleState::Lost | TurnLifecycleState::Unknown => AssignmentStatus::Lost,
        _ => AssignmentStatus::AwaitingDecision,
    }
}

/// What recording a failed start did: an unknown assignment is refused and nothing changes;
/// otherwise the assignment fails, the worker is released, the session stops (lost with its
/// thread when `session_anchor_lost`), the work unit waits for a decision and the workstreams
/// are refreshed; the assignment and work unit are read back.
pub open spec fn start_failed(
    pre: CollaborationState,
    post: CollaborationState,
    assignment_id: Seq<char>,
    worker_id: Seq<char>,
    worker_session_id: Seq<char>,
    session_anchor_lost: bool,
    now: i64,
    r: Result<(Assignment, WorkUnit), OrcasError>,
) -> bool {
    match get(pre.assignments@, assignment_id) {
        None => r is Err && r->Err_0@ == OrcasErrorView::Protocol("unknown assignment `"@ + assignment_id + "`"@)
            && post == pre,
        Some(a) => {
            &&& assignment_marked(pre.assignments@, post.assignments@, assignment_id, AssignmentStatus::Failed, now)
            &&& worker_released(pre.workers@, post.workers@, worker_id)
            &&& session_updated(pre.worker_sessions@, post.worker_sessions@, worker_session_id, |s: WorkerSession| session_start_failed(s, session_anchor_lost, now))
            &&& units_awaiting(pre.work_units@, post.work_units@, a.work_unit_id@, assignment_id, None, now)
            &&& post.workstreams@ == workstreams_refreshed(pre.workstreams@, post.work_units@, now)
            &&& post.reports == pre.reports
            &&& post.decisions == pre.decisions
            &&& post.supervisor_proposals == pre.supervisor_proposals
            &&& post.assignment_communications == pre.assignment_communications
            &&& match get(post.work_units@, a.work_unit_id@) {
                Some(w) => r is Ok && super::assign::same_assignment(r->Ok_0.0, get(post.assignments@, assignment_id)->0)
                    && super::types::same_work_unit(r->Ok_0.1, w),
                None => r is Err && r->Err_0@ == OrcasErrorView::Protocol("unknown work unit `"@ + a.work_unit_id@ + "`"@),
            }
        },
    }
}

impl CollaborationState {
    fn set_assignment_status(&mut self, id: &str, status: AssignmentStatus, now: i64) -> (r: Option<usize>)
        requires
            old(self).wf(),
        ensures
            final(self).wf(),
            assignment_marked(old(self).assignments@, final(self).assignments@, id@, status, now),
            forall|x: Seq<char>| #[trigger] pos_of(final(self).assignments@, x) == pos_of(old(self).assignments@, x),
            r == match pos_of(old(self).assignments@, id@) { Some(p) => Some(p as usize), None => None },
            final(self).workstreams == old(self).workstreams,
            final(self).work_units == old(self).work_units,
            final(self).workers == old(self).workers,
            final(self).worker_sessions == old(self).worker_sessions,
            final(self).reports == old(self).reports,
            final(self).decisions == old(self).decisions,
            final(self).supervisor_proposals == old(self).supervisor_proposals,
            final(self).assignment_communications == old(self).assignment_communications,
    {
        match find(&self.assignments, id) {
            None => None,
            Some(p) => {
                let ghost s0 = self.assignments@;
                let mut a = self.assignments.remove(p);
                a.status = status;
                a.updated_at = now;
                self.assignments.insert(p, a);
                proof {
                    assert(self.assignments@ =~= s0.update(p as int, a));
                    lemma_update_keyed(s0, p as int, a);
                }
                Some(p)
            },
        }
    }

    fn release_worker(&mut self, worker_id: &str)
        requires
            old(self).wf(),
        ensures
            final(self).wf(),
            worker_released(old(self).workers@, final(self).workers@, worker_id@),
            final(self).workstreams == old(self).workstreams,
            final(self).work_units == old(self).work_units,
            final(self).assignments == old(self).assignments,
            final(self).worker_sessions == old(self).worker_sessions,
            final(self).reports == old(self).reports,
            final(self).decisions == old(self).decisions,
            final(self).supervisor_proposals == old(self).supervisor_proposals,
            final(self).assignment_communications == old(self).assignment_communications,
    {
        if let Some(p) = find(&self.workers, worker_id) {
            let ghost s0 = self.workers@;
            let mut w = self.workers.remove(p);
            w.status = WorkerStatus::Idle;
            w.current_assignment_id = None;
            self.workers.insert(p, w);
            proof {
                assert(self.workers@ =~= s0.update(p as int, w));
                lemma_update_keyed(s0, p as int, w);
            }
        }
    }

    fn await_decision(&mut self, work_unit_id: &str, assignment_id: &str, report_id: Option<&str>, now: i64)
        requires
            old(self).wf(),
        ensures
            final(self).wf(),
            units_awaiting(old(self).work_units@, final(self).work_units@, work_unit_id@, assignment_id@, match report_id { Some(x) => Some(x@), None => None }, now),
            forall|x: Seq<char>| #[trigger] pos_of(final(self).work_units@, x) == pos_of(old(self).work_units@, x),
            final(self).workstreams == old(self).workstreams,
            final(self).workers == old(self).workers,
            final(self).assignments == old(self).assignments,
            final(self).worker_sessions == old(self).worker_sessions,
            final(self).reports == old(self).reports,
            final(self).decisions == old(self).decisions,
            final(self).supervisor_proposals == old(self).supervisor_proposals,
            final(self).assignment_communications == old(self).assignment_communications,
    {
        if let Some(p) = find(&self.work_units, work_unit_id) {
            let ghost s0 = self.work_units@;
            let mut w = self.work_units.remove(p);
            w.status = WorkUnitStatus::AwaitingDecision;
            w.current_assignment_id = Some(owned(assignment_id));
            if let Some(rid) = report_id {
                w.latest_report_id = Some(owned(rid));
            }
            w.updated_at = now;
            self.work_units.insert(p, w);
            proof {
                assert(self.work_units@ =~= s0.update(p as int, w));
                lemma_update_keyed(s0, p as int, w);
            }
        }
    }

    /// Records that an assignment could not be started: the assignment fails, the worker is
    /// released, the session stops (lost with its thread when `session_anchor_lost`), and the
    /// work unit waits for a decision. The assignment and work unit afterwards are returned.
    pub fn mark_assignment_start_failed(
        &mut self,
        assignment_id: &str,
        worker_id: &str,
        worker_session_id: &str,
        session_anchor_lost: bool,
        now: i64,
    ) -> (r: Result<(Assignment, WorkUnit), OrcasError>)
        requires
            old(self).wf(),
        ensures
            final(self).wf(),
            start_failed(*old(self), *final(self), assignment_id@, worker_id@, worker_session_id@, session_anchor_lost, now, r),
    {
        let ap = match find(&self.assignments, assignment_id) {
            Some(p) => p,
            None => {
                return Err(OrcasError::Protocol(cat3("unknown assignment `", assignment_id, "`")));
            },
        };
        let work_unit_id = self.assignments[ap].work_unit_id.clone();
        let ghost pre = *self;
        self.set_assignment_status(assignment_id, AssignmentStatus::Failed, now);
        self.release_worker(worker_id);
        if let Some(p) = find(&self.worker_sessions, worker_session_id) {
            let ghost s0 = self.worker_sessions@;
            let mut s = self.worker_sessions[p].copy();
            s.active_turn_id = None;
            if session_anchor_lost {
                s.thread_id = None;
                s.runtime_status = WorkerSessionRuntimeStatus::Lost;
                s.attachability = WorkerSessionAttachability::NotAttachable;
            } else {
                s.runtime_status = WorkerSessionRuntimeStatus::Failed;
                s.attachability = if s.thread_id.is_some() {
                    WorkerSessionAttachability::Unknown
                } else {
                    WorkerSessionAttachability::NotAttachable
                };
            }
            s.updated_at = now;
            self.worker_sessions.set(p, s);
            proof {
                lemma_update_keyed(s0, p as int, s);
            }
        }
        self.await_decision(work_unit_id.as_str(), assignment_id, None, now);
        self.refresh_workstream_statuses(now);
        let ghost post = *self;
        let r = self.assignment_and_unit(assignment_id, work_unit_id.as_str());
        proof {
            assert(session_updated(pre.worker_sessions@, post.worker_sessions@, worker_session_id@, |s: WorkerSession| session_start_failed(s, session_anchor_lost, now)));
        }
        r
    }

    /// Records that an assignment's runtime was lost: the assignment is lost, the worker released,
    /// the session lost with its thread, and the work unit waits for a decision.
    pub fn mark_assignment_runtime_lost(
        &mut self,
        assignment_id: &str,
        worker_id: &str,
        worker_session_id: &str,
        now: i64,
    ) -> (r: Result<(Assignment, WorkUnit), OrcasError>)
        requires
            old(self).wf(),
        ensures
            final(self).wf(),
            match get(old(self).assignments@, assignment_id@) {
                None => r is Err && r->Err_0@ == OrcasErrorView::Protocol("unknown assignment `"@ + assignment_id@ + "`"@)
                    && *final(self) == *old(self),
                Some(a) => {
                    &&& assignment_marked(old(self).assignments@, final(self).assignments@, assignment_id@, AssignmentStatus::Lost, now)
                    &&& worker_released(old(self).workers@, final(self).workers@, worker_id@)
                    &&& session_updated(old(self).worker_sessions@, final(self).worker_sessions@, worker_session_id@, |s: WorkerSession| session_lost(s, now))
                    &&& units_awaiting(old(self).work_units@, final(self).work_units@, a.work_unit_id@, assignment_id@, None, now)
                    &&& final(self).workstreams@ == workstreams_refreshed(old(self).workstreams@, final(self).work_units@, now)
                    &&& final(self).reports == old(self).reports
                    &&& final(self).decisions == old(self).decisions
                    &&& final(self).supervisor_proposals == old(self).supervisor_proposals
                    &&& final(self).assignment_communications == old(self).assignment_communications
                    &&& match get(final(self).work_units@, a.work_unit_id@) {
                        Some(w) => r is Ok && super::assign::same_assignment(r->Ok_0.0, get(final(self).assignments@, assignment_id@)->0)
                            && super::types::same_work_unit(r->Ok_0.1, w),
                        None => r is Err && r->Err_0@ == OrcasErrorView::Protocol("unknown work unit `"@ + a.work_unit_id@ + "`"@),
                    }
                },
            },
    {
        let ap = match find(&self.assignments, assignment_id) {
            Some(p) => p,
            None => {
                return Err(OrcasError::Protocol(cat3("unknown assignment `", assignment_id, "`")));
            },
        };
        let work_unit_id = self.assignments[ap].work_unit_id.clone();
        let ghost pre = *self;
        self.set_assignment_status(assignment_id, AssignmentStatus::Lost, now);
        self.release_worker(worker_id);
        if let Some(p) = find(&self.worker_sessions, worker_session_id) {
            let ghost s0 = self.worker_sessions@;
            let mut s = self.worker_sessions[p].copy();
            s.active_turn_id = None;
            s.thread_id = None;
            s.runtime_status = WorkerSessionRuntimeStatus::Lost;
            s.attachability = WorkerSessionAttachability::NotAttachable;
            s.updated_at = now;
            self.worker_sessions.set(p, s);
            proof {
                lemma_update_keyed(s0, p as int, s);
            }
        }
        self.await_decision(work_unit_id.as_str(), assignment_id, None, now);
        self.refresh_workstream_statuses(now);
        let ghost post = *self;
        let r = self.assignment_and_unit(assignment_id, work_unit_id.as_str());
        proof {
            assert(session_updated(pre.worker_sessions@, post.worker_sessions@, worker_session_id@, |s: WorkerSession| session_lost(s, now)));
        }
        r
    }

    /// Copies of an assignment and a work unit.
    pub fn assignment_and_unit(&self, assignment_id: &str, work_unit_id: &str) -> (r: Result<(Assignment, WorkUnit), OrcasError>)
        requires
            self.wf(),
        ensures
            match (get(self.assignments@, assignment_id@), get(self.work_units@, work_unit_id@)) {
                (None, _) => r is Err && r->Err_0@ == OrcasErrorView::Protocol("unknown assignment `"@ + assignment_id@ + "`"@),
                (Some(a), None) => r is Err && r->Err_0@ == OrcasErrorView::Protocol("unknown work unit `"@ + work_unit_id@ + "`"@),
                (Some(a), Some(w)) => r is Ok && super::assign::same_assignment(r->Ok_0.0, a) && super::types::same_work_unit(r->Ok_0.1, w),
            },
    {
        let a = match find(&self.assignments, assignment_id) {
            Some(p) => self.assignments[p].copy(),
            None => {
                return Err(OrcasError::Protocol(cat3("unknown assignment `", assignment_id, "`")));
            },
        };
        let w = match find(&self.work_units, work_unit_id) {
            Some(p) => self.work_units[p].copy(),
            None => {
                return Err(OrcasError::Protocol(cat3("unknown work unit `", work_unit_id, "`")));
            },
        };
        Ok((a, w))
    }
}

/// The report a finished turn leaves.
pub open spec fn report_of_turn(
    rep: Report,
    report_id: Seq<char>,
    a: Assignment,
    worker_id: Seq<char>,
    parsed: ParsedWorkerReport,
    raw_output: String,
    now: i64,
) -> bool {
    &&& rep.id@ == report_id
    &&& rep.work_unit_id == a.work_unit_id
    &&& rep.assignment_id@ == a.id@
    &&& rep.worker_id@ == worker_id
    &&& rep.disposition == parsed.disposition
    &&& rep.summary == parsed.summary
    &&& rep.findings == parsed.findings
    &&& rep.blockers == parsed.blockers
    &&& rep.questions == parsed.questions
    &&& rep.recommended_next_actions == parsed.recommended_next_actions
    &&& rep.confidence == parsed.confidence
    &&& rep.raw_output == raw_output
    &&& rep.parse_result == parsed.validation.parse_result
    &&& rep.needs_supervisor_review == parsed.validation.needs_supervisor_review
    &&& rep.created_at == now
}

/// The communication record of the assignment, if it has one, with the envelope, validation and
/// output hash of the report.
pub open spec fn record_answered(
    pre: Seq<AssignmentCommunicationRecord>,
    post: Seq<AssignmentCommunicationRecord>,
    assignment_id: Seq<char>,
    parsed: ParsedWorkerReport,
    raw_output_hash: String,
) -> bool {
    match pos_of(pre, assignment_id) {
        None => post == pre,
        Some(p) => post == pre.update(p, AssignmentCommunicationRecord {
            response_envelope: parsed.envelope,
            validation: Some(parsed.validation),
            raw_output_hash: Some(raw_output_hash),
            ..pre[p]
        }),
    }
}

/// The envelope text extracted from output, as text.
pub open spec fn payload_view(e: EnvelopeExtraction) -> Option<Seq<char>> {
    match e.json_payload {
        Some(p) => Some(p@),
        None => None,
    }
}

/// The report of a turn's output against its packet: the output's envelope parsed (as
/// `parse_outcome` says, validated at `now`), then set aside as the way the turn ended asks
/// (`turn_outcome`).
pub open spec fn turn_parsed(
    parsed: ParsedWorkerReport,
    raw_output: Seq<char>,
    lifecycle: TurnLifecycleState,
    surrounding_text: bool,
    decoded: Option<Result<WorkerReportEnvelope, String>>,
    assignment_id: Seq<char>,
    packet: AssignmentCommunicationPacket,
    now: i64,
) -> bool {
    exists|p: ParsedWorkerReport|
        #[trigger] parse_outcome(p, surrounding_text, decoded, assignment_id, packet, now)
            && turn_outcome(parsed, p, lifecycle, raw_output)
}

impl CollaborationState {
    /// Records how an assignment's turn ended. The turn's output is parsed against the packet of
    /// the assignment's communication record (`extraction` is where its envelope was found and
    /// `decoded` what decoding that envelope's JSON gave) and set aside when the turn was
    /// interrupted or lost. The assignment awaits a decision (or is interrupted or lost with the
    /// turn), the report is stored under `report_id`, the communication record keeps the envelope
    /// and validation, the work unit waits for a decision on the report, the worker is released
    /// and the session stops. An unknown assignment, or one with no communication record, is
    /// refused and nothing changes.
    pub fn record_assignment_turn_outcome(
        &mut self,
        assignment_id: &str,
        worker_id: &str,
        worker_session_id: &str,
        lifecycle: TurnLifecycleState,
        attachable: bool,
        raw_output: String,
        extraction: &EnvelopeExtraction,
        decoded: Option<Result<WorkerReportEnvelope, String>>,
        raw_output_hash: String,
        report_id: String,
        now: i64,
    ) -> (r: Result<Report, OrcasError>)
        requires
            old(self).wf(),
            extraction_of(raw_output@) == (payload_view(*extraction), extraction.surrounding_text),
            extraction.json_payload is Some <==> decoded is Some,
        ensures
            final(self).wf(),
            match get(old(self).assignments@, assignment_id@) {
                None => r is Err && r->Err_0@ == OrcasErrorView::Protocol("unknown assignment `"@ + assignment_id@ + "`"@)
                    && *final(self) == *old(self),
                Some(a) => match get(old(self).assignment_communications@, assignment_id@) {
                  None => r is Err && r->Err_0@ == OrcasErrorView::Protocol(
                        "missing assignment communication record for `"@ + assignment_id@ + "`"@,
                    ) && *final(self) == *old(self),
                  Some(rec) => r is Ok && exists|parsed: ParsedWorkerReport, rep: Report| {
                    &&& #[trigger] report_of_turn(rep, report_id@, a, worker_id@, parsed, raw_output, now)
                    &&& turn_parsed(parsed, raw_output@, lifecycle, extraction.surrounding_text, decoded, assignment_id@, rec.packet, now)
                    &&& same_report(r->Ok_0, rep)
                    &&& final(self).reports@ == upserted(old(self).reports@, rep)
                    &&& assignment_marked(old(self).assignments@, final(self).assignments@, assignment_id@, assignment_status_after_turn(lifecycle), now)
                    &&& record_answered(old(self).assignment_communications@, final(self).assignment_communications@, assignment_id@, parsed, raw_output_hash)
                    &&& units_awaiting(old(self).work_units@, final(self).work_units@, a.work_unit_id@, assignment_id@, Some(report_id@), now)
                    &&& worker_released(old(self).workers@, final(self).workers@, worker_id@)
                    &&& session_updated(old(self).worker_sessions@, final(self).worker_sessions@, worker_session_id@, |s: WorkerSession| session_after_turn(s, lifecycle, attachable, now))
                    &&& final(self).workstreams == old(self).workstreams
                    &&& final(self).decisions == old(self).decisions
                    &&& final(self).supervisor_proposals == old(self).supervisor_proposals
                  },
                },
            },
    {
        let ap = match find(&self.assignments, assignment_id) {
            Some(p) => p,
            None => {
                return Err(OrcasError::Protocol(cat3("unknown assignment `", assignment_id, "`")));
            },
        };
        let cp = match find(&self.assignment_communications, assignment_id) {
            Some(p) => p,
            None => {
                return Err(
                    OrcasError::Protocol(cat3("missing assignment communication record for `", assignment_id, "`")),
                );
            },
        };
        let parsed = parse_worker_report_for_turn(
            raw_output.as_str(),
            lifecycle,
            extraction,
            decoded,
            assignment_id,
            &self.assignment_communications[cp].packet,
            now,
        );
        let ghost gparsed = parsed;
        let ghost pre = *self;
        let ghost a = self.assignments@[ap as int];
        let work_unit_id = self.assignments[ap].work_unit_id.clone();
        let status = match lifecycle {
            TurnLifecycleState::Interrupted => AssignmentStatus::Interrupted,
            TurnLifecycleState::Lost | TurnLifecycleState::Unknown => AssignmentStatus::Lost,
            _ => AssignmentStatus::AwaitingDecision,
        };
        self.set_assignment_status(assignment_id, status, now);
        let parse_result = parsed.validation.parse_result;
        let needs_review = parsed.validation.needs_supervisor_review;
        let ParsedWorkerReport {
            envelope,
            validation,
            disposition,
            summary,
            findings,
            blockers,
            questions,
            recommended_next_actions,
            confidence,
        } = parsed;
        let report = Report {
            id: report_id.clone(),
            work_unit_id: work_unit_id.clone(),
            assignment_id: owned(assignment_id),
            worker_id: owned(worker_id),
            disposition,
            summary,
            findings,
            blockers,
            questions,
            recommended_next_actions,
            confidence,
            raw_output,
            parse_result,
            needs_supervisor_review: needs_review,
            created_at: now,
        };
        let result = report.copy();
        let ghost rep = report;
        upsert(&mut self.reports, report);
        if let Some(p) = find(&self.assignment_communications, assignment_id) {
            let ghost s0 = self.assignment_communications@;
            let mut rec = self.assignment_communications.remove(p);
            rec.response_envelope = envelope;
            rec.validation = Some(validation);
            rec.raw_output_hash = Some(raw_output_hash);
            self.assignment_communications.insert(p, rec);
            proof {
                assert(self.assignment_communications@ =~= s0.update(p as int, rec));
                lemma_update_keyed(s0, p as int, rec);
            }
        }
        self.await_decision(work_unit_id.as_str(), assignment_id, Some(report_id.as_str()), now);
        self.release_worker(worker_id);
        if let Some(p) = find(&self.worker_sessions, worker_session_id) {
            let ghost s0 = self.worker_sessions@;
            let mut s = self.worker_sessions[p].copy();
            s.active_turn_id = None;
            s.runtime_status = match lifecycle {
                TurnLifecycleState::Interrupted => WorkerSessionRuntimeStatus::Interrupted,
                TurnLifecycleState::Lost | TurnLifecycleState::Unknown => WorkerSessionRuntimeStatus::Lost,
                _ => WorkerSessionRuntimeStatus::Completed,
            };
            s.attachability = if attachable {
                WorkerSessionAttachability::Attachable
            } else {
                WorkerSessionAttachability::NotAttachable
            };
            s.updated_at = now;
            self.worker_sessions.set(p, s);
            proof {
                lemma_update_keyed(s0, p as int, s);
            }
        }
        proof {
            assert(report_of_turn(rep, report_id@, a, worker_id@, gparsed, raw_output, now));
            assert(session_updated(pre.worker_sessions@, self.worker_sessions@, worker_session_id@, |s: WorkerSession| session_after_turn(s, lifecycle, attachable, now)));
        }
        Ok(result)
    }
}

/// Whether an assignment can start: it is known, and so is its work unit.
pub open spec fn start_allowed(st: CollaborationState, assignment_id: Seq<char>) -> bool {
    match get(st.assignments@, assignment_id) {
        None => false,
        Some(a) => has(st.work_units@, a.work_unit_id@),
    }
}

/// The worker busy with the assignment.
pub open spec fn worker_occupied(pre: Seq<Worker>, post: Seq<Worker>, worker_id: Seq<char>, assignment_id: Seq<char>) -> bool {
    match pos_of(pre, worker_id) {
        None => post == pre,
        Some(p) => {
            &&& changed_at(pre, post, p)
            &&& post[p] == Worker { status: WorkerStatus::Busy, current_assignment_id: post[p].current_assignment_id, ..pre[p] }
            &&& post[p].current_assignment_id is Some && post[p].current_assignment_id->0@ == assignment_id
        },
    }
}

/// The session running the turn `turn_id`, attachable, since `now`.
pub open spec fn session_started(pre: Seq<WorkerSession>, post: Seq<WorkerSession>, id: Seq<char>, turn_id: Seq<char>, now: i64) -> bool {
    match pos_of(pre, id) {
        None => post == pre,
        Some(p) => {
            &&& changed_at(pre, post, p)
            &&& post[p] == WorkerSession {
                active_turn_id: post[p].active_turn_id,
                runtime_status: WorkerSessionRuntimeStatus::Running,
                attachability: WorkerSessionAttachability::Attachable,
                updated_at: now,
                ..pre[p]
            }
            &&& post[p].active_turn_id is Some && post[p].active_turn_id->0@ == turn_id
        },
    }
}

/// The work unit running since `now`.
pub open spec fn unit_running(pre: Seq<WorkUnit>, post: Seq<WorkUnit>, id: Seq<char>, now: i64) -> bool {
    match pos_of(pre, id) {
        None => post == pre,
        Some(p) => post == pre.update(p, WorkUnit { status: WorkUnitStatus::Running, updated_at: now, ..pre[p] }),
    }
}

/// An assignment started with its turn `turn_id` at `now`: the assignment and its work unit
/// run, its worker is busy with it, its session runs the turn; nothing else changes.
pub open spec fn assignment_started(pre: CollaborationState, post: CollaborationState, assignment_id: Seq<char>, turn_id: Seq<char>, now: i64) -> bool {
    let a = get(pre.assignments@, assignment_id)->0;
    &&& assignment_marked(pre.assignments@, post.assignments@, assignment_id, AssignmentStatus::Running, now)
    &&& unit_running(pre.work_units@, post.work_units@, a.work_unit_id@, now)
    &&& worker_occupied(pre.workers@, post.workers@, a.worker_id@, assignment_id)
    &&& session_started(pre.worker_sessions@, post.worker_sessions@, a.worker_session_id@, turn_id, now)
    &&& post.workstreams == pre.workstreams
    &&& post.reports == pre.reports
    &&& post.decisions == pre.decisions
    &&& post.supervisor_proposals == pre.supervisor_proposals
    &&& post.assignment_communications == pre.assignment_communications
}

impl CollaborationState {
    /// Records that an assignment's turn `turn_id` started at `now` and returns the assignment
    /// as it now is; an unknown assignment, or one whose work unit is unknown, is refused and
    /// nothing changes.
    pub fn start_assignment(&mut self, assignment_id: &str, turn_id: String, now: i64) -> (r: Result<Assignment, OrcasError>)
        requires
            old(self).wf(),
        ensures
            final(self).wf(),
            r is Ok <==> start_allowed(*old(self), assignment_id@),
            r is Ok ==> assignment_started(*old(self), *final(self), assignment_id@, turn_id@, now)
                && same_assignment(r->Ok_0, final(self).assignments@[pos_of(final(self).assignments@, assignment_id@)->0]),
            r is Err ==> *final(self) == *old(self),
            get(old(self).assignments@, assignment_id@) is None ==> r is Err
                && r->Err_0@ == OrcasErrorView::Protocol("unknown assignment `"@ + assignment_id@ + "`"@),
            get(old(self).assignments@, assignment_id@) is Some && !start_allowed(*old(self), assignment_id@) ==> r is Err
                && r->Err_0@ == OrcasErrorView::Protocol(
                    "unknown work unit `"@ + get(old(self).assignments@, assignment_id@)->0.work_unit_id@ + "`"@,
                ),
    {
        let ap = match find(&self.assignments, assignment_id) {
            Some(p) => p,
            None => {
                return Err(OrcasError::Protocol(cat3("unknown assignment `", assignment_id, "`")));
            },
        };
        let work_unit_id = self.assignments[ap].work_unit_id.clone();
        let worker_id = self.assignments[ap].worker_id.clone();
        let session_id = self.assignments[ap].worker_session_id.clone();
        let up = match find(&self.work_units, work_unit_id.as_str()) {
            Some(p) => p,
            None => {
                return Err(OrcasError::Protocol(cat3("unknown work unit `", work_unit_id.as_str(), "`")));
            },
        };
        let ghost pre = *self;
        self.set_assignment_status(assignment_id, AssignmentStatus::Running, now);
        let ghost s0 = self.work_units@;
        let mut w = self.work_units.remove(up);
        w.status = WorkUnitStatus::Running;
        w.updated_at = now;
        self.work_units.insert(up, w);
        proof {
            assert(self.work_units@ =~= s0.update(up as int, w));
            lemma_update_keyed(s0, up as int, w);
        }
        if let Some(k) = find(&self.workers, worker_id.as_str()) {
            let ghost s1 = self.workers@;
            let mut wk = self.workers[k].copy();
            wk.status = WorkerStatus::Busy;
            wk.current_assignment_id = Some(owned(assignment_id));
            self.workers.set(k, wk);
            proof {
                lemma_update_keyed(s1, k as int, wk);
            }
        }
        if let Some(k) = find(&self.worker_sessions, session_id.as_str()) {
            let ghost s2 = self.worker_sessions@;
            let mut se = self.worker_sessions[k].copy();
            se.active_turn_id = Some(turn_id);
            se.runtime_status = WorkerSessionRuntimeStatus::Running;
            se.attachability = WorkerSessionAttachability::Attachable;
            se.updated_at = now;
            self.worker_sessions.set(k, se);
            proof {
                lemma_update_keyed(s2, k as int, se);
            }
        }
        let out = self.assignments[ap].copy();
        proof {
            assert(pos_of(self.assignments@, assignment_id@) == Some(ap as int));
        }
        Ok(out)
    }
}

/// How an assignment is announced once its turn's outcome is recorded: interrupted, failed when
/// it failed or was lost, and reported otherwise.
pub open spec fn outcome_action_of(status: AssignmentStatus) -> AssignmentLifecycleAction {
    match status {
        AssignmentStatus::Interrupted => AssignmentLifecycleAction::Interrupted,
        AssignmentStatus::Failed | AssignmentStatus::Lost => AssignmentLifecycleAction::Failed,
        _ => AssignmentLifecycleAction::Reported,
    }
}

/// The announcement for an assignment whose turn outcome was recorded.
pub fn outcome_action(status: AssignmentStatus) -> (r: AssignmentLifecycleAction)
    ensures
        r == outcome_action_of(status),
{
    match status {
        AssignmentStatus::Interrupted => AssignmentLifecycleAction::Interrupted,
        AssignmentStatus::Failed | AssignmentStatus::Lost => AssignmentLifecycleAction::Failed,
        _ => AssignmentLifecycleAction::Reported,
    }
}

impl CollaborationState {
    /// Settles an assignment's start by how the request for its turn went: a started turn runs
    /// the assignment as `start_assignment` does; a refused request records the failed start as
    /// `mark_assignment_start_failed` does, and the refusal is the answer.
    pub fn settle_turn_start(
        &mut self,
        assignment_id: &str,
        worker_id: &str,
        worker_session_id: &str,
        turn: Result<String, OrcasError>,
        session_anchor_lost: bool,
        now: i64,
    ) -> (r: Result<Assignment, OrcasError>)
        requires
            old(self).wf(),
        ensures
            final(self).wf(),
            match turn {
                Ok(turn_id) => {
                    &&& (r is Ok <==> start_allowed(*old(self), assignment_id@))
                    &&& r is Ok ==> assignment_started(*old(self), *final(self), assignment_id@, turn_id@, now)
                    &&& r is Err ==> *final(self) == *old(self)
                },
                Err(e) => {
                    &&& r is Err
                    &&& r->Err_0 == e
                    &&& exists|marked: Result<(Assignment, WorkUnit), OrcasError>| #[trigger] start_failed(
                        *old(self), *final(self), assignment_id@, worker_id@, worker_session_id@, session_anchor_lost, now, marked,
                    )
                },
            },
    {
        match turn {
            Ok(turn_id) => self.start_assignment(assignment_id, turn_id, now),
            Err(e) => {
                let marked = self.mark_assignment_start_failed(assignment_id, worker_id, worker_session_id, session_anchor_lost, now);
                let ghost gm = marked;
                proof {
                    assert(start_failed(*old(self), *self, assignment_id@, worker_id@, worker_session_id@, session_anchor_lost, now, gm));
                }
                Err(e)
            },
        }
    }
}

} // verus!
