use orcas_daemon::collaboration::packets::communication_record_from_seed;
use orcas_daemon::collaboration::seeds::assignment_communication_seed_from_packet;
use orcas_daemon::assignment_comm::parse::extract_envelope;
use orcas_daemon::assignment_comm::{
    AllowedScope, AssignmentCommunicationPacket, AssignmentTaskMode, PacketItem, WorkerReportContract,
};
use orcas_daemon::collaboration::types::AssignmentCommunicationRecord;
use orcas_daemon::model::TurnLifecycleState;
use orcas_daemon::collaboration::assign::AssignmentStartRequest;
use orcas_daemon::collaboration::outcome::outcome_action;
use orcas_daemon::runtime::digest::AssignmentLifecycleAction;
use orcas_daemon::assignment_comm::{
    AssignmentModeSpec, ImplementModeSpec, ReportConfidence, ReportDisposition, ReportParseResult,
};
use orcas_daemon::collaboration::decision::DecisionApplyRequest;
use orcas_daemon::collaboration::generation::{
    auto_proposal_request, proposal_generation_failure_error, GenerationPersisted, GenerationPrep, GenerationReply,
    GenerationStart, ProposalDuplicatePolicy,
};
use orcas_daemon::collaboration::proposals::{ApprovedDraft, ApprovedProposal};
use orcas_daemon::collaboration::types::{
    Assignment, AssignmentCommunicationSeed, AssignmentStatus, CollaborationLifecycleAction,
    CollaborationState, Decision, DecisionType, Report, SupervisorProposalFailure, SupervisorProposalFailureStage,
    SupervisorProposalRecord, SupervisorProposalStatus, WorkUnit, Worker, WorkerSession,
    WorkerSessionAttachability, WorkerSessionRuntimeStatus, WorkerStatus, Workstream,
};
use orcas_daemon::model::{OrcasError, WorkUnitStatus, WorkstreamStatus};

fn uid() -> String {
    uuid::Uuid::new_v4().simple().to_string()
}

fn seed(objective: &str) -> AssignmentCommunicationSeed {
    AssignmentCommunicationSeed {
        source_decision_id: None,
        source_report_id: None,
        source_proposal_id: None,
        predecessor_assignment_id: None,
        objective: objective.to_string(),
        instructions: vec!["Do the work.".to_string()],
        acceptance_criteria: vec!["It works.".to_string()],
        stop_conditions: vec!["Stop when blocked.".to_string()],
        required_context_refs: Vec::new(),
        expected_report_fields: Vec::new(),
        boundedness_note: None,
        mode_spec: AssignmentModeSpec::Implement(ImplementModeSpec { expected_verification_commands: Vec::new() }),
    }
}

fn report(id: &str, assignment_id: &str) -> Report {
    Report {
        id: id.to_string(),
        work_unit_id: "wu-1".to_string(),
        assignment_id: assignment_id.to_string(),
        worker_id: "worker-1".to_string(),
        disposition: ReportDisposition::Completed,
        summary: "done".to_string(),
        findings: Vec::new(),
        blockers: Vec::new(),
        questions: Vec::new(),
        recommended_next_actions: Vec::new(),
        confidence: ReportConfidence::High,
        raw_output: "raw".to_string(),
        parse_result: ReportParseResult::Parsed,
        needs_supervisor_review: false,
        created_at: 10,
    }
}

/// A work unit awaiting a decision on report `report-1` of assignment `assignment-1`.
fn awaiting_decision() -> CollaborationState {
    let mut st = CollaborationState::new();
    st.workstreams.push(Workstream {
        id: "ws-1".to_string(),
        title: "Stream".to_string(),
        objective: "Ship it".to_string(),
        status: WorkstreamStatus::Active,
        priority: "normal".to_string(),
        created_at: 1,
        updated_at: 1,
    });
    st.work_units.push(WorkUnit {
        id: "wu-1".to_string(),
        workstream_id: "ws-1".to_string(),
        title: "Unit".to_string(),
        task_statement: "Do the task.".to_string(),
        status: WorkUnitStatus::AwaitingDecision,
        dependencies: Vec::new(),
        latest_report_id: Some("report-1".to_string()),
        current_assignment_id: Some("assignment-1".to_string()),
        created_at: 1,
        updated_at: 5,
    });
    st.workers.push(Worker {
        id: "worker-1".to_string(),
        kind: "codex".to_string(),
        status: WorkerStatus::Idle,
        current_assignment_id: None,
    });
    st.worker_sessions.push(WorkerSession {
        id: "session-1".to_string(),
        worker_id: "worker-1".to_string(),
        backend_type: "codex_thread".to_string(),
        thread_id: Some("thread-1".to_string()),
        active_turn_id: None,
        runtime_status: WorkerSessionRuntimeStatus::Completed,
        attachability: WorkerSessionAttachability::NotAttachable,
        updated_at: 5,
    });
    st.assignments.push(Assignment {
        id: "assignment-1".to_string(),
        work_unit_id: "wu-1".to_string(),
        worker_id: "worker-1".to_string(),
        worker_session_id: "session-1".to_string(),
        instructions: "Do the task.".to_string(),
        communication_seed: Some(seed("First objective")),
        status: AssignmentStatus::AwaitingDecision,
        attempt_number: 1,
        created_at: 2,
        updated_at: 5,
    });
    st.reports.push(report("report-1", "assignment-1"));
    st
}

fn proposal(id: &str, source_report_id: &str, created_at: i64) -> SupervisorProposalRecord {
    SupervisorProposalRecord {
        id: id.to_string(),
        workstream_id: "ws-1".to_string(),
        primary_work_unit_id: "wu-1".to_string(),
        source_report_id: source_report_id.to_string(),
        status: SupervisorProposalStatus::Open,
        created_at,
        reasoner_model: "model".to_string(),
        proposed_decision_type: Some(DecisionType::Continue),
        approved_decision_type: None,
        has_approval_edits: false,
        generation_failure: None,
        reviewed_at: None,
        reviewed_by: None,
        review_note: None,
        approved_decision_id: None,
        approved_assignment_id: None,
    }
}

fn request(decision_type: DecisionType) -> DecisionApplyRequest {
    DecisionApplyRequest {
        work_unit_id: "wu-1".to_string(),
        report_id: None,
        decision_type,
        rationale: "because".to_string(),
        instructions: None,
        worker_id: None,
        worker_kind: None,
    }
}

fn protocol_message(e: OrcasError) -> String {
    match e {
        OrcasError::Protocol(m) => m,
        other => panic!("expected a protocol error, got {other:?}"),
    }
}

#[test]
fn accept_settles_the_unit_and_closes_its_assignment() {
    let mut st = awaiting_decision();
    let out = st
        .decision_apply(&request(DecisionType::Accept), None, 20, "decision-1".to_string(), "assignment-2".to_string(), "session-2".to_string(), &record_of)
        .expect("accepted");
    assert_eq!(out.decision.id, "decision-1");
    assert_eq!(out.decision.report_id.as_deref(), Some("report-1"));
    assert!(out.next_assignment.is_none());
    assert_eq!(out.closed_assignment.as_ref().map(|a| a.status), Some(AssignmentStatus::Closed));
    assert_eq!(out.work_unit.status, WorkUnitStatus::Accepted);
    assert!(out.work_unit.current_assignment_id.is_none());
    assert_eq!(out.work_unit_action, CollaborationLifecycleAction::Updated);
    assert_eq!(out.workstream.status, WorkstreamStatus::Active);
    assert_eq!(st.assignments[0].status, AssignmentStatus::Closed);
    assert_eq!(st.decisions.len(), 1);
}

#[test]
fn mark_complete_updates_work_unit_and_workstream() {
    let mut st = awaiting_decision();
    let out = st
        .decision_apply(&request(DecisionType::MarkComplete), None, 20, "decision-1".to_string(), "a".to_string(), "s".to_string(), &record_of)
        .expect("completed");
    assert_eq!(out.work_unit.status, WorkUnitStatus::Completed);
    assert_eq!(out.workstream.status, WorkstreamStatus::Completed);
    assert_eq!(out.work_unit_action, CollaborationLifecycleAction::Completed);
    assert_eq!(out.workstream_action, CollaborationLifecycleAction::Completed);
}

#[test]
fn escalation_blocks_the_workstream() {
    let mut st = awaiting_decision();
    let out = st
        .decision_apply(&request(DecisionType::EscalateToHuman), None, 20, "decision-1".to_string(), "a".to_string(), "s".to_string(), &record_of)
        .expect("escalated");
    assert_eq!(out.work_unit.status, WorkUnitStatus::NeedsHuman);
    assert_eq!(out.workstream.status, WorkstreamStatus::Blocked);
    assert_eq!(out.work_unit_action, CollaborationLifecycleAction::Escalated);
    assert_eq!(out.workstream_action, CollaborationLifecycleAction::Escalated);
}

#[test]
fn continue_creates_new_assignment_and_reuses_worker_session() {
    let mut st = awaiting_decision();
    let mut req = request(DecisionType::Continue);
    req.instructions = Some("Keep going.".to_string());
    let out = st
        .decision_apply(&req, None, 20, "decision-1".to_string(), "assignment-2".to_string(), "session-new".to_string(), &record_of)
        .expect("continued");
    let next = out.next_assignment.expect("next assignment");
    assert_eq!(next.id, "assignment-2");
    assert_eq!(next.worker_id, "worker-1");
    assert_eq!(next.worker_session_id, "session-1");
    assert_eq!(next.attempt_number, 2);
    assert_eq!(next.status, AssignmentStatus::Created);
    assert_eq!(next.instructions, "Keep going.");
    let seed = next.communication_seed.expect("seed");
    assert_eq!(seed.source_decision_id.as_deref(), Some("decision-1"));
    assert_eq!(seed.predecessor_assignment_id.as_deref(), Some("assignment-1"));
    assert_eq!(seed.source_report_id.as_deref(), Some("report-1"));
    assert_eq!(seed.objective, "First objective");
    assert_eq!(seed.instructions, vec!["Keep going.".to_string()]);
    assert_eq!(out.work_unit.status, WorkUnitStatus::Ready);
    assert_eq!(out.work_unit.current_assignment_id.as_deref(), Some("assignment-2"));
    assert_eq!(st.worker_sessions.len(), 1);
    assert_eq!(st.assignments.len(), 2);
}

#[test]
fn lost_worker_session_gets_fresh_session_on_next_assignment() {
    let mut st = awaiting_decision();
    st.worker_sessions[0].runtime_status = WorkerSessionRuntimeStatus::Lost;
    let mut req = request(DecisionType::Continue);
    req.instructions = Some("Run with a fresh runtime anchor.".to_string());
    let out = st
        .decision_apply(&req, None, 20, "decision-1".to_string(), "assignment-2".to_string(), "session-2".to_string(), &record_of)
        .expect("decision");
    let next = out.next_assignment.expect("next assignment");
    assert_ne!(next.worker_session_id, "session-1");
    assert_eq!(next.worker_session_id, "session-2");
    let prior = st.assignments.iter().find(|a| a.id == "assignment-1").unwrap();
    assert_eq!(prior.worker_session_id, "session-1");
    let stored = st.assignments.iter().find(|a| a.id == next.id).unwrap();
    assert_eq!(stored.worker_session_id, next.worker_session_id);
    let old_session = st.worker_sessions.iter().find(|s| s.id == "session-1").unwrap();
    assert_eq!(old_session.runtime_status, WorkerSessionRuntimeStatus::Lost);
    assert_eq!(st.worker_sessions.len(), 2);
    assert_eq!(st.worker_sessions[1].runtime_status, WorkerSessionRuntimeStatus::Idle);
}

#[test]
fn decisions_on_unknown_units_or_without_assignments_are_refused() {
    let mut st = awaiting_decision();
    let mut req = request(DecisionType::Accept);
    req.work_unit_id = "wu-missing".to_string();
    let err = st.decision_apply(&req, None, 20, "d".to_string(), "a".to_string(), "s".to_string(), &record_of).unwrap_err();
    assert_eq!(protocol_message(err), "unknown work unit `wu-missing`");

    let mut st = awaiting_decision();
    st.work_units[0].current_assignment_id = None;
    let err = st
        .decision_apply(&request(DecisionType::Continue), None, 20, "d".to_string(), "a".to_string(), "s".to_string(), &record_of)
        .unwrap_err();
    assert_eq!(protocol_message(err), "continue/redirect requires an existing assignment");
}

#[test]
fn proposal_becomes_stale_after_newer_report_and_cannot_be_approved() {
    let mut st = awaiting_decision();
    st.supervisor_proposals.push(proposal("proposal-1", "report-1", 30));
    st.reports.push(report("report-2", "assignment-1"));
    st.work_units[0].latest_report_id = Some("report-2".to_string());

    let (stale, result) = st.approve_proposal(
        "proposal-1",
        Ok(ApprovedProposal {
            decision_type: DecisionType::Accept,
            rationale: "ok".to_string(),
            requires_assignment: false,
            draft: None,
            has_edits: false,
        }),
        None,
        None,
        40,
        "d".to_string(),
        "a".to_string(),
        "s".to_string(),
        &record_of,
    );
    assert_eq!(stale.len(), 1);
    assert_eq!(stale[0].status, SupervisorProposalStatus::Stale);
    assert_eq!(
        stale[0].review_note.as_deref(),
        Some("Proposal became stale: a newer report replaced source report `report-1`")
    );
    assert_eq!(protocol_message(result.unwrap_err()), "proposal `proposal-1` is not open and cannot be approved");
    assert!(st.decisions.is_empty());
}

#[test]
fn proposal_reject_is_durable_and_blocks_later_approval() {
    let mut st = awaiting_decision();
    st.supervisor_proposals.push(proposal("proposal-1", "report-1", 30));
    let (stale, rejected) = st.reject_proposal("proposal-1", Some("operator".to_string()), Some("not now".to_string()), 40);
    assert!(stale.is_empty());
    let rejected = rejected.expect("rejected");
    assert_eq!(rejected.status, SupervisorProposalStatus::Rejected);
    assert_eq!(rejected.reviewed_by.as_deref(), Some("operator"));
    assert_eq!(rejected.reviewed_at, Some(40));
    assert_eq!(rejected.review_note.as_deref(), Some("not now"));
    let stored = st.supervisor_proposals.iter().find(|p| p.id == "proposal-1").unwrap();
    assert_eq!(stored.status, SupervisorProposalStatus::Rejected);

    let (_, approval) = st.approve_proposal(
        "proposal-1",
        Ok(ApprovedProposal {
            decision_type: DecisionType::Accept,
            rationale: "approve after reject".to_string(),
            requires_assignment: false,
            draft: None,
            has_edits: false,
        }),
        None,
        None,
        41,
        "decision-1".to_string(),
        "assignment-2".to_string(),
        "session-2".to_string(),
        &record_of,
    );
    assert_eq!(protocol_message(approval.unwrap_err()), "proposal `proposal-1` is not open and cannot be approved");
    assert!(st.decisions.is_empty());
    let stored = st.supervisor_proposals.iter().find(|p| p.id == "proposal-1").unwrap();
    assert_eq!(stored.status, SupervisorProposalStatus::Rejected);

    let mut st = awaiting_decision();
    st.supervisor_proposals.push(proposal("proposal-1", "report-1", 30));
    let (_, by_default) = st.reject_proposal("proposal-1", None, None, 40);
    assert_eq!(by_default.expect("rejected").reviewed_by.as_deref(), Some("supervisor_cli"));

    let (_, again) = st.reject_proposal("proposal-1", None, None, 41);
    assert_eq!(protocol_message(again.unwrap_err()), "proposal `proposal-1` is not open and cannot be rejected");
    let (_, missing) = st.reject_proposal("proposal-9", None, None, 41);
    assert_eq!(protocol_message(missing.unwrap_err()), "unknown proposal `proposal-9`");
}

#[test]
fn proposal_approve_continue_creates_decision_and_next_assignment() {
    let mut st = awaiting_decision();
    st.supervisor_proposals.push(proposal("proposal-1", "report-1", 30));
    st.supervisor_proposals.push(proposal("proposal-0", "report-1", 29));
    let (stale, result) = st.approve_proposal(
        "proposal-1",
        Ok(ApprovedProposal {
            decision_type: DecisionType::Continue,
            rationale: "more to do".to_string(),
            requires_assignment: true,
            draft: Some(ApprovedDraft {
                instructions: "Finish the tests.".to_string(),
                worker_id: None,
                worker_kind: None,
                communication_seed: seed("Second objective"),
            }),
            has_edits: true,
        }),
        Some("operator".to_string()),
        None,
        40,
        "decision-1".to_string(),
        "assignment-2".to_string(),
        "session-2".to_string(),
        &record_of,
    );
    assert!(stale.is_empty());
    let approved = result.expect("approved");
    assert_eq!(approved.proposal.status, SupervisorProposalStatus::Approved);
    assert_eq!(approved.proposal.approved_decision_id.as_deref(), Some("decision-1"));
    assert_eq!(approved.proposal.approved_assignment_id.as_deref(), Some("assignment-2"));
    assert_eq!(approved.proposal.approved_decision_type, Some(DecisionType::Continue));
    assert!(approved.proposal.has_approval_edits);
    assert_eq!(approved.proposal.reviewed_by.as_deref(), Some("operator"));
    assert_eq!(approved.outcome.decision.decision_type, DecisionType::Continue);
    let next = approved.outcome.next_assignment.as_ref().expect("next assignment");
    assert_eq!(next.instructions, "Finish the tests.");
    assert_eq!(next.communication_seed.as_ref().unwrap().objective, "Second objective");
    assert_eq!(st.assignment_communications.len(), 1);
    assert_eq!(st.assignment_communications[0].assignment_id, "assignment-2");
    // The decision moves the unit on, so its other open proposal went stale before the approval
    // settled its siblings.
    assert!(approved.siblings.is_empty());
    let other = approved.outcome.stale_proposals.iter().find(|p| p.id == "proposal-0").expect("stale sibling");
    assert_eq!(other.status, SupervisorProposalStatus::Stale);
    let stored = st.supervisor_proposals.iter().find(|p| p.id == "proposal-0").unwrap();
    assert_eq!(stored.status, SupervisorProposalStatus::Stale);

    let (_, again) = st.approve_proposal(
        "proposal-1",
        Ok(ApprovedProposal { decision_type: DecisionType::Accept, rationale: "x".to_string(), requires_assignment: false, draft: None, has_edits: false }),
        None,
        None,
        41,
        "d".to_string(),
        "a".to_string(),
        "s".to_string(),
        &record_of,
    );
    assert_eq!(protocol_message(again.unwrap_err()), "proposal `proposal-1` is not open and cannot be approved");
}

#[test]
fn approval_needs_a_payload_and_a_draft_when_it_asks_for_one() {
    let mut st = awaiting_decision();
    let mut p = proposal("proposal-1", "report-1", 30);
    p.proposed_decision_type = None;
    st.supervisor_proposals.push(p);
    let ok = || ApprovedProposal { decision_type: DecisionType::Continue, rationale: "r".to_string(), requires_assignment: true, draft: None, has_edits: false };
    let (_, r) = st.approve_proposal("proposal-1", Ok(ok()), None, None, 40, "d".to_string(), "a".to_string(), "s".to_string(), &record_of);
    assert_eq!(protocol_message(r.unwrap_err()), "proposal `proposal-1` does not contain a model-generated proposal payload");

    let mut st = awaiting_decision();
    st.supervisor_proposals.push(proposal("proposal-1", "report-1", 30));
    let (_, r) = st.approve_proposal("proposal-1", Ok(ok()), None, None, 40, "d".to_string(), "a".to_string(), "s".to_string(), &record_of);
    assert_eq!(protocol_message(r.unwrap_err()), "approved proposal requires a draft assignment but none was present");
    assert!(st.decisions.is_empty());
}

#[test]
fn proposal_stales_after_current_assignment_changes() {
    let mut st = awaiting_decision();
    st.supervisor_proposals.push(proposal("proposal-1", "report-1", 30));
    st.work_units[0].current_assignment_id = Some("assignment-other".to_string());
    let stale = st.refresh_stale_proposals_for_work_unit("wu-1");
    assert_eq!(stale.len(), 1);
    assert_eq!(
        stale[0].review_note.as_deref(),
        Some("Proposal became stale: the current assignment of work unit `wu-1` changed")
    );
    assert!(st.refresh_stale_proposals_for_work_unit("wu-1").is_empty());
}

#[test]
fn proposal_generation_requires_an_awaiting_unit_and_its_latest_report() {
    let mut st = awaiting_decision();
    let (_, prep) = st.prepare_proposal_generation("wu-1", None, false, false);
    match prep.expect("ready") {
        GenerationPrep::Ready { source_report_id } => assert_eq!(source_report_id, "report-1"),
        GenerationPrep::Suppressed { .. } => panic!("expected ready"),
    }
    let (_, prep) = st.prepare_proposal_generation("wu-1", None, false, true);
    assert_eq!(
        protocol_message(prep.err().unwrap()),
        "supervisor proposal generation is blocked while the work unit still has a live attachable turn"
    );
    let (_, prep) = st.prepare_proposal_generation("wu-1", Some("report-0"), true, false);
    match prep.expect("suppressed") {
        GenerationPrep::Suppressed { reason } => assert_eq!(reason, "proposal generation requires the latest report for the work unit"),
        GenerationPrep::Ready { .. } => panic!("expected suppression"),
    }
    st.work_units[0].status = WorkUnitStatus::Ready;
    let (_, prep) = st.prepare_proposal_generation("wu-1", None, false, false);
    assert_eq!(protocol_message(prep.err().unwrap()), "work unit `wu-1` is not awaiting_decision");
    let (_, prep) = st.prepare_proposal_generation("wu-9", None, false, false);
    assert_eq!(protocol_message(prep.err().unwrap()), "unknown work unit `wu-9`");
}

#[test]
fn duplicate_open_proposal_without_supersede_is_rejected() {
    let mut st = awaiting_decision();
    st.supervisor_proposals.push(proposal("proposal-1", "report-1", 30));
    let err = st
        .check_duplicate_proposals("wu-1", "report-1", ProposalDuplicatePolicy::Manual { supersede_open: false })
        .unwrap_err();
    assert_eq!(
        protocol_message(err),
        "an open proposal already exists for work unit `wu-1` and source report `report-1`"
    );
    assert!(st
        .check_duplicate_proposals("wu-1", "report-1", ProposalDuplicatePolicy::Manual { supersede_open: true })
        .unwrap()
        .is_none());
    assert_eq!(
        st.check_duplicate_proposals("wu-1", "report-1", ProposalDuplicatePolicy::Auto).unwrap().as_deref(),
        Some("proposal generation already exists for work unit `wu-1` and source report `report-1`")
    );
    assert!(st.check_duplicate_proposals("wu-1", "report-2", ProposalDuplicatePolicy::Auto).unwrap().is_none());
}

#[test]
fn resynthesis_supersedes_open_proposals_for_the_report() {
    let mut st = awaiting_decision();
    st.supervisor_proposals.push(proposal("proposal-1", "report-1", 30));
    let persisted = st
        .persist_generated_proposal(proposal("proposal-2", "report-1", 31), ProposalDuplicatePolicy::Manual { supersede_open: true })
        .expect("persisted");
    match persisted {
        GenerationPersisted::Created { proposal, superseded } => {
            assert_eq!(proposal.status, SupervisorProposalStatus::Open);
            assert_eq!(superseded.len(), 1);
            assert_eq!(superseded[0].status, SupervisorProposalStatus::Superseded);
            assert_eq!(
                superseded[0].review_note.as_deref(),
                Some("Superseded by an operator-requested re-synthesis for the same report.")
            );
        },
        GenerationPersisted::Suppressed { .. } => panic!("expected creation"),
    }
    assert_eq!(st.supervisor_proposals.len(), 2);

    let raced = st.persist_generated_proposal(proposal("proposal-3", "report-1", 32), ProposalDuplicatePolicy::Auto).unwrap();
    assert!(matches!(raced, GenerationPersisted::Suppressed { .. }));

    st.work_units[0].status = WorkUnitStatus::Ready;
    let late = st.persist_generated_proposal(proposal("proposal-4", "report-1", 33), ProposalDuplicatePolicy::Auto).unwrap();
    match late {
        GenerationPersisted::Created { proposal, .. } => {
            assert_eq!(proposal.status, SupervisorProposalStatus::Stale);
            assert_eq!(
                proposal.review_note.as_deref(),
                Some("Proposal became stale before persistence: work unit `wu-1` is no longer awaiting_decision")
            );
        },
        GenerationPersisted::Suppressed { .. } => panic!("stale proposals are stored"),
    }
}

#[test]
fn generation_failures_answer_by_stage() {
    let mut p = proposal("proposal-f", "report-1", 30);
    p.status = SupervisorProposalStatus::GenerationFailed;
    p.generation_failure = Some(SupervisorProposalFailure { stage: SupervisorProposalFailureStage::Backend, message: "timeout".to_string() });
    match proposal_generation_failure_error(&p) {
        OrcasError::Transport(m) => assert_eq!(m, "supervisor proposal generation failed; inspect proposal `proposal-f` for details: timeout"),
        other => panic!("unexpected {other:?}"),
    }
    p.generation_failure = Some(SupervisorProposalFailure { stage: SupervisorProposalFailureStage::ProposalValidation, message: "bad".to_string() });
    assert!(matches!(proposal_generation_failure_error(&p), OrcasError::Protocol(_)));
    p.generation_failure = None;
    match proposal_generation_failure_error(&p) {
        OrcasError::Transport(m) => assert!(m.ends_with("unknown supervisor proposal generation failure")),
        other => panic!("unexpected {other:?}"),
    }
}

#[test]
fn work_unit_proposal_summary_tracks_latest_and_open() {
    let mut st = awaiting_decision();
    assert!(st.work_unit_proposal_summary("wu-1").is_none());
    let mut failed = proposal("proposal-a", "report-1", 10);
    failed.status = SupervisorProposalStatus::GenerationFailed;
    failed.generation_failure = Some(SupervisorProposalFailure { stage: SupervisorProposalFailureStage::Backend, message: "x".to_string() });
    st.supervisor_proposals.push(failed);
    st.supervisor_proposals.push(proposal("proposal-b", "report-1", 20));
    let mut stale = proposal("proposal-c", "report-1", 30);
    stale.status = SupervisorProposalStatus::Stale;
    st.supervisor_proposals.push(stale);
    let summary = st.work_unit_proposal_summary("wu-1").expect("summary");
    assert_eq!(summary.latest_proposal_id, "proposal-c");
    assert_eq!(summary.latest_status, SupervisorProposalStatus::Stale);
    assert!(summary.has_open_proposal);
    assert_eq!(summary.open_proposal_id.as_deref(), Some("proposal-b"));
    assert_eq!(summary.open_proposed_decision_type, Some(DecisionType::Continue));
    assert!(summary.has_generation_failed);
    assert!(summary.has_stale_or_superseded);
}

#[test]
fn work_units_need_known_workstreams_and_dependencies() {
    let mut st = awaiting_decision();
    let err = st.create_work_unit("ws-9", "t".to_string(), "task".to_string(), Vec::new(), 50, &uid()).unwrap_err();
    assert_eq!(protocol_message(err), "unknown workstream `ws-9`");
    let err = st
        .create_work_unit("ws-1", "t".to_string(), "task".to_string(), vec!["wu-1".to_string(), "wu-x".to_string()], 50, &uid())
        .unwrap_err();
    assert_eq!(protocol_message(err), "unknown dependency work unit `wu-x`");

    let (blocked, ws) = st
        .create_work_unit("ws-1", "next".to_string(), "follow up".to_string(), vec!["wu-1".to_string()], 50, &uid())
        .expect("created");
    assert!(blocked.id.starts_with("wu-"));
    assert_eq!(blocked.id.len(), "wu-".len() + 32);
    assert_eq!(blocked.status, WorkUnitStatus::Blocked);
    assert_eq!(ws.id, "ws-1");
    assert_eq!(ws.updated_at, 50);

    let (ready, _) = st.create_work_unit("ws-1", "free".to_string(), "no deps".to_string(), Vec::new(), 51, &uid()).expect("created");
    assert_eq!(ready.status, WorkUnitStatus::Ready);
    assert_ne!(ready.id, blocked.id);

    let ws2 = st.create_workstream("Other".to_string(), "More".to_string(), None, 60, &uid());
    assert!(ws2.id.starts_with("ws-"));
    assert_eq!(ws2.priority, "normal");
    assert_eq!(ws2.status, WorkstreamStatus::Active);
}

fn decision(id: &str, created_at: i64) -> Decision {
    Decision {
        id: id.to_string(),
        work_unit_id: "wu-1".to_string(),
        report_id: Some("report-1".to_string()),
        decision_type: DecisionType::Continue,
        rationale: "keep going".to_string(),
        created_at,
    }
}

#[test]
fn snapshot_lists_newest_first_and_hides_closed_assignments() {
    let mut st = awaiting_decision();
    st.workstreams.push(Workstream {
        id: "ws-0".to_string(),
        title: "Other".to_string(),
        objective: "Elsewhere".to_string(),
        status: WorkstreamStatus::Active,
        priority: "high".to_string(),
        created_at: 1,
        updated_at: 1,
    });
    let mut closed = st.assignments[0].copy();
    closed.id = "assignment-0".to_string();
    closed.status = AssignmentStatus::Closed;
    st.assignments.push(closed);
    let mut newer = report("report-2", "assignment-1");
    newer.created_at = 20;
    st.reports.push(newer);
    st.decisions.push(decision("decision-1", 3));
    st.supervisor_proposals.push(proposal("proposal-1", "report-1", 7));

    let snapshot = st.collaboration_snapshot();
    let ws: Vec<&str> = snapshot.workstreams.iter().map(|w| w.id.as_str()).collect();
    assert_eq!(ws, vec!["ws-0", "ws-1"]);
    assert_eq!(snapshot.work_units.len(), 1);
    assert_eq!(snapshot.work_units[0].dependency_count, 0);
    let proposal = snapshot.work_units[0].proposal.as_ref().expect("proposal summary");
    assert_eq!(proposal.latest_proposal_id, "proposal-1");
    assert_eq!(proposal.open_proposal_id.as_deref(), Some("proposal-1"));
    let assignments: Vec<&str> = snapshot.assignments.iter().map(|a| a.id.as_str()).collect();
    assert_eq!(assignments, vec!["assignment-1"]);
    let reports: Vec<&str> = snapshot.reports.iter().map(|r| r.id.as_str()).collect();
    assert_eq!(reports, vec!["report-2", "report-1"]);
    assert_eq!(snapshot.decisions.len(), 1);
    assert_eq!(snapshot.decisions[0].rationale, "keep going");
}

#[test]
fn workunit_get_lists_history_oldest_first() {
    let mut st = awaiting_decision();
    let mut older = report("report-0", "assignment-0");
    older.created_at = 4;
    st.reports.push(older);
    let mut elsewhere = report("report-x", "assignment-x");
    elsewhere.work_unit_id = "wu-2".to_string();
    st.reports.push(elsewhere);
    st.decisions.push(decision("decision-b", 3));
    st.decisions.push(decision("decision-a", 3));
    st.supervisor_proposals.push(proposal("proposal-2", "report-1", 9));
    st.supervisor_proposals.push(proposal("proposal-1", "report-1", 8));

    let (detail, stale) = st.workunit_get("wu-1");
    assert!(stale.is_empty());
    let detail = detail.expect("known work unit");
    assert_eq!(detail.work_unit.id, "wu-1");
    assert_eq!(detail.assignments.len(), 1);
    let reports: Vec<&str> = detail.reports.iter().map(|r| r.id.as_str()).collect();
    assert_eq!(reports, vec!["report-0", "report-1"]);
    let decisions: Vec<&str> = detail.decisions.iter().map(|d| d.id.as_str()).collect();
    assert_eq!(decisions, vec!["decision-a", "decision-b"]);
    let proposals: Vec<&str> = detail.proposals.iter().map(|p| p.id.as_str()).collect();
    assert_eq!(proposals, vec!["proposal-1", "proposal-2"]);

    let (missing, _) = st.workunit_get("wu-404");
    assert_eq!(protocol_message(missing.unwrap_err()), "unknown work unit `wu-404`");
}

#[test]
fn workunit_get_marks_stale_proposals_first() {
    let mut st = awaiting_decision();
    st.supervisor_proposals.push(proposal("proposal-old", "report-0", 8));
    let (detail, stale) = st.workunit_get("wu-1");
    assert_eq!(stale.len(), 1);
    assert_eq!(stale[0].id, "proposal-old");
    assert_eq!(stale[0].status, SupervisorProposalStatus::Stale);
    assert_eq!(detail.unwrap().proposals[0].status, SupervisorProposalStatus::Stale);
}

#[test]
fn workstream_and_work_unit_listings_filter_and_sort() {
    let mut st = awaiting_decision();
    let mut second = st.work_units[0].copy();
    second.id = "wu-2".to_string();
    second.updated_at = 9;
    st.work_units.push(second);
    let mut other = st.work_units[0].copy();
    other.id = "wu-3".to_string();
    other.workstream_id = "ws-2".to_string();
    st.work_units.push(other);

    let detail = st.workstream_get("ws-1").expect("known workstream");
    let units: Vec<&str> = detail.work_units.iter().map(|w| w.id.as_str()).collect();
    assert_eq!(units, vec!["wu-2", "wu-1"]);
    assert_eq!(protocol_message(st.workstream_get("ws-9").unwrap_err()), "unknown workstream `ws-9`");

    let all: Vec<String> = st.workunit_list(None).into_iter().map(|w| w.id).collect();
    assert_eq!(all, vec!["wu-2", "wu-1", "wu-3"]);
    let only: Vec<String> = st.workunit_list(Some("ws-2")).into_iter().map(|w| w.id).collect();
    assert_eq!(only, vec!["wu-3"]);
}

#[test]
fn assignment_get_resolves_worker_session_and_report() {
    let mut st = awaiting_decision();
    let detail = st.assignment_get("assignment-1").expect("known assignment");
    assert_eq!(detail.worker.id, "worker-1");
    assert_eq!(detail.worker_session.id, "session-1");
    assert_eq!(detail.report.expect("report").id, "report-1");
    assert_eq!(protocol_message(st.assignment_get("assignment-9").unwrap_err()), "unknown assignment `assignment-9`");

    st.worker_sessions.clear();
    assert_eq!(protocol_message(st.assignment_get("assignment-1").unwrap_err()), "unknown worker session `session-1`");
    st.workers.clear();
    assert_eq!(protocol_message(st.assignment_get("assignment-1").unwrap_err()), "unknown worker `worker-1`");
}

#[test]
fn report_queries_by_id_and_work_unit() {
    let mut st = awaiting_decision();
    let mut first = report("report-0", "assignment-0");
    first.created_at = 3;
    st.reports.push(first);
    assert_eq!(st.report_get("report-1").expect("known").summary, "done");
    assert_eq!(protocol_message(st.report_get("report-9").unwrap_err()), "unknown report `report-9`");
    let ids: Vec<String> = st.report_list_for_workunit("wu-1").into_iter().map(|r| r.id).collect();
    assert_eq!(ids, vec!["report-0", "report-1"]);
    assert!(st.report_list_for_workunit("wu-9").is_empty());
}

#[test]
fn proposal_queries_refresh_staleness_first() {
    let mut st = awaiting_decision();
    st.supervisor_proposals.push(proposal("proposal-1", "report-1", 8));
    st.supervisor_proposals.push(proposal("proposal-0", "report-0", 7));

    let (found, stale) = st.proposal_get("proposal-1");
    assert_eq!(found.expect("known").status, SupervisorProposalStatus::Open);
    assert_eq!(stale.len(), 1);
    assert_eq!(stale[0].id, "proposal-0");

    let (missing, none) = st.proposal_get("proposal-9");
    assert_eq!(protocol_message(missing.unwrap_err()), "unknown proposal `proposal-9`");
    assert!(none.is_empty());

    let (summaries, stale_again) = st.proposal_list_for_workunit("wu-1");
    assert!(stale_again.is_empty());
    let ids: Vec<&str> = summaries.iter().map(|p| p.id.as_str()).collect();
    assert_eq!(ids, vec!["proposal-1", "proposal-0"]);
    assert_eq!(summaries[0].proposed_decision_type, Some(DecisionType::Continue));
    assert_eq!(summaries[1].status, SupervisorProposalStatus::Stale);
}

#[test]
fn attaching_a_thread_resets_the_session() {
    let mut st = awaiting_decision();
    let session = st.attach_worker_session_thread("session-1", "thread-9".to_string(), 42).expect("known session");
    assert_eq!(session.thread_id.as_deref(), Some("thread-9"));
    assert_eq!(session.runtime_status, WorkerSessionRuntimeStatus::Idle);
    assert_eq!(session.attachability, WorkerSessionAttachability::Unknown);
    assert_eq!(session.updated_at, 42);
    assert_eq!(st.worker_sessions[0].thread_id.as_deref(), Some("thread-9"));
    let err = st.attach_worker_session_thread("session-9", "thread-1".to_string(), 43).unwrap_err();
    assert_eq!(protocol_message(err), "unknown worker session `session-9`");
}

#[test]
fn recorded_outcomes_announce_by_assignment_status() {
    assert_eq!(outcome_action(AssignmentStatus::Interrupted), AssignmentLifecycleAction::Interrupted);
    assert_eq!(outcome_action(AssignmentStatus::Failed), AssignmentLifecycleAction::Failed);
    assert_eq!(outcome_action(AssignmentStatus::Lost), AssignmentLifecycleAction::Failed);
    assert_eq!(outcome_action(AssignmentStatus::AwaitingDecision), AssignmentLifecycleAction::Reported);
}

fn approve_as(st: &mut CollaborationState, decision_type: DecisionType, needs_assignment: bool) -> orcas_daemon::collaboration::proposals::ProposalApproved {
    let mut p = proposal("proposal-1", "report-1", 30);
    p.proposed_decision_type = Some(decision_type);
    st.supervisor_proposals.push(p);
    let draft = if needs_assignment {
        Some(ApprovedDraft {
            instructions: "Take the next step.".to_string(),
            worker_id: None,
            worker_kind: None,
            communication_seed: seed("Next objective"),
        })
    } else {
        None
    };
    let (_, result) = st.approve_proposal(
        "proposal-1",
        Ok(ApprovedProposal {
            decision_type,
            rationale: "approved".to_string(),
            requires_assignment: needs_assignment,
            draft,
            has_edits: false,
        }),
        Some("operator".to_string()),
        None,
        40,
        "decision-1".to_string(),
        "assignment-2".to_string(),
        "session-2".to_string(),
        &record_of,
    );
    result.expect("approved")
}

fn assert_terminal_approval_path(decision_type: DecisionType, unit: WorkUnitStatus, stream: WorkstreamStatus) {
    let mut st = awaiting_decision();
    let approved = approve_as(&mut st, decision_type, false);
    assert_eq!(approved.outcome.decision.decision_type, decision_type);
    assert!(approved.outcome.next_assignment.is_none());
    assert_eq!(approved.proposal.status, SupervisorProposalStatus::Approved);
    assert_eq!(st.work_units[0].status, unit);
    assert!(st.work_units[0].current_assignment_id.is_none());
    assert_eq!(st.assignments[0].status, AssignmentStatus::Closed);
    assert_eq!(st.workstreams[0].status, stream);
}

#[test]
fn proposal_approve_accept_marks_work_unit_accepted() {
    assert_terminal_approval_path(DecisionType::Accept, WorkUnitStatus::Accepted, WorkstreamStatus::Active);
}

#[test]
fn proposal_approve_mark_complete_completes_workstream() {
    assert_terminal_approval_path(DecisionType::MarkComplete, WorkUnitStatus::Completed, WorkstreamStatus::Completed);
}

#[test]
fn proposal_approve_escalate_to_human_blocks_workstream() {
    assert_terminal_approval_path(DecisionType::EscalateToHuman, WorkUnitStatus::NeedsHuman, WorkstreamStatus::Blocked);
}

#[test]
fn proposal_approve_redirect_creates_next_assignment() {
    let mut st = awaiting_decision();
    let approved = approve_as(&mut st, DecisionType::Redirect, true);
    let next = approved.outcome.next_assignment.as_ref().expect("next assignment");
    assert_eq!(approved.outcome.decision.decision_type, DecisionType::Redirect);
    assert_eq!(approved.proposal.status, SupervisorProposalStatus::Approved);
    assert_eq!(next.status, AssignmentStatus::Created);
    assert_eq!(next.attempt_number, 2);
    let unit = st.work_units.iter().find(|w| w.id == "wu-1").unwrap();
    assert_eq!(unit.status, WorkUnitStatus::Ready);
    assert_eq!(unit.current_assignment_id.as_deref(), Some(next.id.as_str()));
    let first = st.assignments.iter().find(|a| a.id == "assignment-1").unwrap();
    assert_eq!(first.status, AssignmentStatus::Closed);
}

#[test]
fn double_approve_and_reject_after_approve_fail_closed() {
    let mut st = awaiting_decision();
    let _ = approve_as(&mut st, DecisionType::Accept, false);
    let (_, second) = st.approve_proposal(
        "proposal-1",
        Ok(ApprovedProposal {
            decision_type: DecisionType::Accept,
            rationale: "again".to_string(),
            requires_assignment: false,
            draft: None,
            has_edits: false,
        }),
        Some("operator".to_string()),
        None,
        41,
        "decision-2".to_string(),
        "assignment-3".to_string(),
        "session-3".to_string(),
        &record_of,
    );
    assert!(protocol_message(second.unwrap_err()).contains("is not open and cannot be approved"));
    let (_, reject) = st.reject_proposal("proposal-1", Some("operator".to_string()), None, 42);
    assert!(protocol_message(reject.unwrap_err()).contains("is not open and cannot be rejected"));
}

#[test]
fn snapshot_includes_collaboration_summaries_after_creation() {
    let mut st = CollaborationState::new();
    let ws = st.create_workstream("Stream".to_string(), "Objective".to_string(), None, 10, &uid());
    let (wu, _) = st
        .create_work_unit(ws.id.as_str(), "Unit".to_string(), "Task".to_string(), Vec::new(), 11, &uid())
        .expect("work unit");
    let snapshot = st.collaboration_snapshot();
    assert_eq!(snapshot.workstreams.len(), 1);
    assert_eq!(snapshot.workstreams[0].id, ws.id);
    assert_eq!(snapshot.workstreams[0].priority, "normal");
    assert_eq!(snapshot.work_units.len(), 1);
    assert_eq!(snapshot.work_units[0].id, wu.id);
    assert_eq!(snapshot.work_units[0].status, WorkUnitStatus::Ready);
    assert!(snapshot.work_units[0].proposal.is_none());
    assert!(snapshot.assignments.is_empty());
    assert!(snapshot.reports.is_empty());
    assert!(snapshot.decisions.is_empty());
}

fn start_request(work_unit_id: &str) -> AssignmentStartRequest {
    AssignmentStartRequest {
        work_unit_id: work_unit_id.to_string(),
        worker_id: "worker-a".to_string(),
        worker_kind: Some("codex".to_string()),
        instructions: Some("Inspect the reconnect path".to_string()),
        model: None,
        cwd: None,
    }
}

fn fresh_unit() -> (CollaborationState, String) {
    let mut st = CollaborationState::new();
    let ws = st.create_workstream("Reconnect".to_string(), "Fix regression".to_string(), None, 10, &uid());
    let (wu, _) = st
        .create_work_unit(ws.id.as_str(), "Inspect streaming".to_string(), "Inspect the current streaming path".to_string(), Vec::new(), 11, &uid())
        .expect("work unit");
    (st, wu.id)
}

#[test]
fn assignment_start_reuses_only_unexecuted_latest_pending_assignment() {
    let (mut st, wu) = fresh_unit();
    let first = st
        .prepare_assignment(&start_request(&wu), 20, "assignment-1".to_string(), "session-1".to_string(), &record_of)
        .expect("assignment");
    let second = st
        .prepare_assignment(&start_request(&wu), 21, "assignment-2".to_string(), "session-2".to_string(), &record_of)
        .expect("assignment");
    assert!(first.created_new);
    assert_eq!(first.assignment.id, second.assignment.id);
    assert!(!second.created_new);
    assert_eq!(st.assignments.len(), 1);
    assert_eq!(st.assignment_communications.len(), 1);
    assert_eq!(st.assignment_communications[0].assignment_id, first.assignment.id);
}

#[test]
fn assignment_start_does_not_reopen_reported_assignment() {
    let (mut st, wu) = fresh_unit();
    let prepared = st
        .prepare_assignment(&start_request(&wu), 20, "assignment-1".to_string(), "session-1".to_string(), &record_of)
        .expect("assignment");
    let a = st.assignments.iter_mut().find(|a| a.id == prepared.assignment.id).unwrap();
    a.status = AssignmentStatus::AwaitingDecision;
    let w = st.work_units.iter_mut().find(|w| w.id == wu).unwrap();
    w.status = WorkUnitStatus::AwaitingDecision;
    let err = st
        .prepare_assignment(&start_request(&wu), 21, "assignment-2".to_string(), "session-2".to_string(), &record_of)
        .expect_err("must not reopen assignment before decision");
    assert!(protocol_message(err).contains("is not startable in status `AwaitingDecision`"));
}

#[test]
fn assignment_start_rejects_multiple_pending_assignments() {
    let (mut st, wu) = fresh_unit();
    let first = st
        .prepare_assignment(&start_request(&wu), 20, "assignment-1".to_string(), "session-1".to_string(), &record_of)
        .expect("assignment");
    st.assignments.push(Assignment {
        id: "assignment-dup".to_string(),
        work_unit_id: wu.clone(),
        worker_id: "worker-a".to_string(),
        worker_session_id: first.assignment.worker_session_id.clone(),
        instructions: "duplicate".to_string(),
        communication_seed: None,
        status: AssignmentStatus::Created,
        attempt_number: first.assignment.attempt_number + 1,
        created_at: 22,
        updated_at: 22,
    });
    let err = st
        .prepare_assignment(&start_request(&wu), 23, "assignment-2".to_string(), "session-2".to_string(), &record_of)
        .expect_err("multiple pending assignments must fail");
    assert!(protocol_message(err).contains("multiple unexecuted pending assignments"));
}

fn packet_for(assignment_id: &str) -> AssignmentCommunicationPacket {
    AssignmentCommunicationPacket {
        schema_version: "assignment_communication_packet.v1".to_string(),
        packet_id: format!("packet-{assignment_id}"),
        assignment_id: assignment_id.to_string(),
        source_decision_id: None,
        source_report_id: None,
        source_proposal_id: None,
        predecessor_assignment_id: None,
        task_mode: AssignmentTaskMode::Implement,
        mode_spec: AssignmentModeSpec::Implement(ImplementModeSpec { expected_verification_commands: Vec::new() }),
        objective: "Implement one bounded step.".to_string(),
        instructions: vec!["Implement the bounded task and report honestly.".to_string()],
        non_goals: Vec::new(),
        included_context: Vec::new(),
        acceptance_criteria: vec![PacketItem { id: "ac-1".to_string(), text: "The step works.".to_string() }],
        stop_conditions: vec![PacketItem { id: "sc-1".to_string(), text: "Stop when blocked.".to_string() }],
        allowed_scope: AllowedScope { allowed_write_paths: Vec::new() },
        response_contract: WorkerReportContract {
            schema_version: "worker_report_contract.v1".to_string(),
            task_mode: AssignmentTaskMode::Implement,
            marker_begin: "ORCAS_REPORT_BEGIN".to_string(),
            marker_end: "ORCAS_REPORT_END".to_string(),
        },
    }
}

fn record_from_own_seed(a: &Assignment) -> AssignmentCommunicationRecord {
    communication_record_from_seed(&a.id, format!("packet-{}", a.id), a.communication_seed.as_ref().unwrap())
}

fn record_of(a: &Assignment) -> AssignmentCommunicationRecord {
    record_for(&a.id)
}

fn record_for(assignment_id: &str) -> AssignmentCommunicationRecord {
    AssignmentCommunicationRecord {
        assignment_id: assignment_id.to_string(),
        packet: packet_for(assignment_id),
        response_envelope: None,
        validation: None,
        raw_output_hash: None,
    }
}

#[test]
fn communication_records_are_stored_once_for_known_assignments() {
    let mut st = awaiting_decision();
    let err = st.ensure_assignment_communication_record(record_for("assignment-9")).unwrap_err();
    assert_eq!(protocol_message(err), "unknown assignment `assignment-9` for communication record");
    let mut bad = record_for("assignment-1");
    bad.packet.schema_version = "v0".to_string();
    assert!(st.ensure_assignment_communication_record(bad).is_err());
    assert!(st.assignment_communications.is_empty());
    assert!(matches!(st.ensure_assignment_communication_record(record_for("assignment-1")), Ok(true)));
    assert_eq!(st.assignment_communications.len(), 1);
}

#[test]
fn interrupted_assignment_records_report_and_requires_supervisor_review() {
    let mut st = awaiting_decision();
    st.assignments[0].status = AssignmentStatus::Running;
    st.work_units[0].status = WorkUnitStatus::Running;
    st.worker_sessions[0].active_turn_id = Some("turn-interrupted".to_string());
    st.worker_sessions[0].runtime_status = WorkerSessionRuntimeStatus::Running;
    st.ensure_assignment_communication_record(record_for("assignment-1")).expect("record");
    let raw = "partial raw output".to_string();
    let extraction = extract_envelope(&raw);
    assert!(extraction.json_payload.is_none());
    let report = st
        .record_assignment_turn_outcome(
            "assignment-1",
            "worker-1",
            "session-1",
            TurnLifecycleState::Interrupted,
            false,
            raw.clone(),
            &extraction,
            None,
            "hash".to_string(),
            "report-2".to_string(),
            30,
        )
        .expect("recorded");
    assert_eq!(report.disposition, ReportDisposition::Interrupted);
    assert_eq!(report.parse_result, ReportParseResult::Invalid);
    assert!(report.needs_supervisor_review);
    let a = st.assignments.iter().find(|a| a.id == "assignment-1").unwrap();
    assert_eq!(a.status, AssignmentStatus::Interrupted);
    assert_eq!(st.work_units[0].status, WorkUnitStatus::AwaitingDecision);
    assert_eq!(st.work_units[0].latest_report_id.as_deref(), Some("report-2"));
    assert_eq!(st.worker_sessions[0].runtime_status, WorkerSessionRuntimeStatus::Interrupted);
    assert!(st.worker_sessions[0].active_turn_id.is_none());
    assert!(st.assignment_communications[0].validation.is_some());

    let mut bare = awaiting_decision();
    let err = bare
        .record_assignment_turn_outcome("assignment-1", "worker-1", "session-1", TurnLifecycleState::Completed, false, raw, &extraction, None, "h".to_string(), "r".to_string(), 31)
        .unwrap_err();
    assert_eq!(protocol_message(err), "missing assignment communication record for `assignment-1`");
}

#[test]
fn starting_an_assignment_runs_it_with_its_worker_and_session() {
    let mut st = awaiting_decision();
    st.assignments[0].status = AssignmentStatus::Created;
    let started = st.start_assignment("assignment-1", "turn-7".to_string(), 50).expect("started");
    assert_eq!(started.status, AssignmentStatus::Running);
    assert_eq!(started.updated_at, 50);
    assert_eq!(st.work_units[0].status, WorkUnitStatus::Running);
    assert_eq!(st.workers[0].status, WorkerStatus::Busy);
    assert_eq!(st.workers[0].current_assignment_id.as_deref(), Some("assignment-1"));
    assert_eq!(st.worker_sessions[0].active_turn_id.as_deref(), Some("turn-7"));
    assert_eq!(st.worker_sessions[0].runtime_status, WorkerSessionRuntimeStatus::Running);
    assert_eq!(st.worker_sessions[0].attachability, WorkerSessionAttachability::Attachable);
    let err = st.start_assignment("assignment-9", "turn-8".to_string(), 51).unwrap_err();
    assert_eq!(protocol_message(err), "unknown assignment `assignment-9`");
    st.assignments[0].work_unit_id = "wu-gone".to_string();
    let err = st.start_assignment("assignment-1", "turn-8".to_string(), 51).unwrap_err();
    assert_eq!(protocol_message(err), "unknown work unit `wu-gone`");
}

#[test]
fn supersede_open_failure_keeps_existing_open_proposal() {
    let mut st = awaiting_decision();
    st.supervisor_proposals.push(proposal("proposal-1", "report-1", 30));
    let (failed, err) = st.fail_proposal_generation(
        "proposal-2".to_string(),
        "ws-1".to_string(),
        "wu-1".to_string(),
        "report-1".to_string(),
        "model".to_string(),
        None,
        SupervisorProposalFailure {
            stage: SupervisorProposalFailureStage::Backend,
            message: "timeout contacting test provider".to_string(),
        },
        31,
    );
    assert_eq!(failed.status, SupervisorProposalStatus::GenerationFailed);
    assert_eq!(failed.generation_failure.as_ref().unwrap().stage, SupervisorProposalFailureStage::Backend);
    assert!(failed.proposed_decision_type.is_none());
    let again = format!("{:?}", proposal_generation_failure_error(&failed));
    assert_eq!(format!("{err:?}"), again);
    match err {
        OrcasError::Transport(m) => {
            assert_eq!(m, "supervisor proposal generation failed; inspect proposal `proposal-2` for details: timeout contacting test provider");
        },
        other => panic!("expected a transport error, got {other:?}"),
    }
    assert_eq!(st.supervisor_proposals.len(), 2);
    let first = st.supervisor_proposals.iter().find(|p| p.id == "proposal-1").unwrap();
    assert_eq!(first.status, SupervisorProposalStatus::Open);
}

fn sample_structured_assignment_seed(predecessor_assignment_id: &str, source_report_id: &str) -> AssignmentCommunicationSeed {
    AssignmentCommunicationSeed {
        source_decision_id: None,
        source_report_id: Some(source_report_id.to_string()),
        source_proposal_id: Some("proposal-structured".to_string()),
        predecessor_assignment_id: Some(predecessor_assignment_id.to_string()),
        objective: "Implement the structured recovery pass.".to_string(),
        instructions: vec![
            "Inspect only the structured recovery branch.".to_string(),
            "Do not broaden beyond the current implement slice.".to_string(),
        ],
        acceptance_criteria: vec!["The structured recovery branch behavior is confirmed.".to_string()],
        stop_conditions: vec!["Stop if the recovery branch is not reproducible.".to_string()],
        required_context_refs: vec!["ctx/recovery".to_string()],
        expected_report_fields: vec!["summary".to_string(), "recommended_next_actions".to_string()],
        boundedness_note: Some("Keep the follow-up strictly bounded.".to_string()),
        mode_spec: AssignmentModeSpec::Implement(ImplementModeSpec { expected_verification_commands: Vec::new() }),
    }
}

#[test]
fn decision_apply_uses_structured_seed_for_packet_not_assignment_instructions() {
    let mut st = awaiting_decision();
    let seed = sample_structured_assignment_seed("assignment-1", "report-1");
    let mut req = request(DecisionType::Continue);
    req.report_id = Some("report-1".to_string());
    req.instructions = Some("compatibility preview only".to_string());
    let out = st
        .decision_apply_with_seed(&req, Some(seed.copy()), 40, "decision-1".to_string(), "assignment-2".to_string(), "session-2".to_string(), "packet-2".to_string())
        .expect("decision");
    let next = out.next_assignment.as_ref().expect("next assignment");
    assert_eq!(next.instructions, "compatibility preview only");
    assert_eq!(st.assignment_communications.len(), 1);
    let k = &st.assignment_communications.iter().find(|r| r.assignment_id == next.id).unwrap().packet;
    assert_eq!(k.packet_id, "packet-2");
    assert_eq!(k.assignment_id, "assignment-2");
    assert_eq!(k.objective, seed.objective);
    assert_eq!(k.instructions, seed.instructions);
    assert_eq!(k.source_proposal_id.as_deref(), Some("proposal-structured"));
    assert_eq!(k.predecessor_assignment_id.as_deref(), Some("assignment-1"));
    assert_eq!(k.source_report_id.as_deref(), Some("report-1"));
    assert_eq!(k.source_decision_id.as_deref(), Some(out.decision.id.as_str()));
    assert_eq!(k.acceptance_criteria[0].id, "ac-1");
    assert_eq!(k.stop_conditions[0].id, "sc-1");
    assert_eq!(k.non_goals, vec!["Keep the follow-up strictly bounded.".to_string()]);
    assert_eq!(k.included_context[0].lines, vec!["ctx/recovery".to_string()]);
    let back = assignment_communication_seed_from_packet(k);
    assert_eq!(back.objective, seed.objective);
    assert_eq!(back.required_context_refs, seed.required_context_refs);
    assert_eq!(back.boundedness_note, seed.boundedness_note);
}

#[test]
fn decision_apply_with_a_seed_builder_stores_the_seeded_packet() {
    let seed = sample_structured_assignment_seed("assignment-1", "report-1");
    let mut req = request(DecisionType::Continue);
    req.report_id = Some("report-1".to_string());
    let mut by_builder = awaiting_decision();
    by_builder
        .decision_apply(&req, Some(seed.copy()), 40, "decision-1".to_string(), "assignment-2".to_string(), "session-2".to_string(), &record_from_own_seed)
        .expect("decision");
    let mut by_seed = awaiting_decision();
    by_seed
        .decision_apply_with_seed(&req, Some(seed.copy()), 40, "decision-1".to_string(), "assignment-2".to_string(), "session-2".to_string(), "packet-assignment-2".to_string())
        .expect("decision");
    assert_eq!(by_builder.assignment_communications.len(), 1);
    assert_eq!(by_seed.assignment_communications.len(), 1);
    let a = &by_builder.assignment_communications[0].packet;
    let b = &by_seed.assignment_communications[0].packet;
    assert_eq!(a.packet_id, b.packet_id);
    assert_eq!(a.objective, b.objective);
    assert_eq!(a.instructions, b.instructions);
    assert_eq!(a.source_decision_id, b.source_decision_id);
    assert_eq!(a.acceptance_criteria.len(), b.acceptance_criteria.len());
}

#[test]
fn generation_checks_duplicates_before_the_reasoner_is_asked() {
    let mut st = awaiting_decision();
    let (_, start) = st.begin_proposal_generation("wu-1", None, ProposalDuplicatePolicy::Auto, false);
    match start {
        GenerationStart::AskReasoner { source_report_id } => assert_eq!(source_report_id, "report-1"),
        other => panic!("expected to ask the reasoner, got {other:?}"),
    }

    let mut rejected = proposal("proposal-1", "report-1", 30);
    rejected.status = SupervisorProposalStatus::Rejected;
    st.supervisor_proposals.push(rejected);
    let (_, start) = st.begin_proposal_generation("wu-1", None, ProposalDuplicatePolicy::Auto, false);
    match start {
        GenerationStart::Suppressed { reason } => assert_eq!(
            reason,
            "proposal generation already exists for work unit `wu-1` and source report `report-1`"
        ),
        other => panic!("expected a suppression, got {other:?}"),
    }
    assert_eq!(st.supervisor_proposals.len(), 1);

    let mut st = awaiting_decision();
    st.supervisor_proposals.push(proposal("proposal-1", "report-1", 30));
    let (_, start) = st.begin_proposal_generation("wu-1", None, ProposalDuplicatePolicy::Manual { supersede_open: false }, false);
    match start {
        GenerationStart::Refused(e) => assert_eq!(
            protocol_message(e),
            "an open proposal already exists for work unit `wu-1` and source report `report-1`"
        ),
        other => panic!("expected a refusal, got {other:?}"),
    }
    let (_, start) = st.begin_proposal_generation("wu-1", None, ProposalDuplicatePolicy::Manual { supersede_open: true }, false);
    assert!(matches!(start, GenerationStart::AskReasoner { .. }));

    let (_, start) = st.begin_proposal_generation("wu-1", None, ProposalDuplicatePolicy::Auto, true);
    match start {
        GenerationStart::Suppressed { reason } => assert_eq!(
            reason,
            "supervisor proposal generation is blocked while the work unit still has a live attachable turn"
        ),
        other => panic!("expected a suppression, got {other:?}"),
    }
}

#[test]
fn finishing_a_failed_generation_records_it_and_answers_with_its_error() {
    let mut st = awaiting_decision();
    let r = st.finish_proposal_generation(
        GenerationReply::Failed {
            id: "proposal-3".to_string(),
            workstream_id: "ws-1".to_string(),
            primary_work_unit_id: "wu-1".to_string(),
            source_report_id: "report-1".to_string(),
            reasoner_model: "model".to_string(),
            proposed_decision_type: None,
            failure: SupervisorProposalFailure {
                stage: SupervisorProposalFailureStage::Backend,
                message: "backend down".to_string(),
            },
            now: 60,
        },
        ProposalDuplicatePolicy::Auto,
    );
    match r {
        Err(OrcasError::Transport(m)) => assert_eq!(
            m,
            "supervisor proposal generation failed; inspect proposal `proposal-3` for details: backend down"
        ),
        other => panic!("expected a transport error, got {other:?}"),
    }
    assert_eq!(st.supervisor_proposals.len(), 1);
    assert_eq!(st.supervisor_proposals[0].status, SupervisorProposalStatus::GenerationFailed);

    let created = st
        .finish_proposal_generation(
            GenerationReply::Generated(proposal("proposal-4", "report-1", 61)),
            ProposalDuplicatePolicy::Manual { supersede_open: false },
        )
        .expect("persisted");
    match created {
        GenerationPersisted::Created { proposal, .. } => assert_eq!(proposal.id, "proposal-4"),
        other => panic!("expected a created proposal, got {other:?}"),
    }
    let raced = st
        .finish_proposal_generation(GenerationReply::Generated(proposal("proposal-5", "report-1", 62)), ProposalDuplicatePolicy::Auto)
        .expect("answered");
    assert!(matches!(raced, GenerationPersisted::Suppressed { .. }));
}

#[test]
fn a_refused_turn_fails_the_start_and_a_started_turn_runs_it() {
    let mut st = awaiting_decision();
    st.assignments[0].status = AssignmentStatus::Created;
    let err = st
        .settle_turn_start("assignment-1", "worker-1", "session-1", Err(OrcasError::Transport("no thread".to_string())), false, 50)
        .unwrap_err();
    assert!(matches!(err, OrcasError::Transport(ref m) if m == "no thread"));
    assert_eq!(st.assignments[0].status, AssignmentStatus::Failed);
    assert_eq!(st.worker_sessions[0].runtime_status, WorkerSessionRuntimeStatus::Failed);
    assert_eq!(st.work_units[0].status, WorkUnitStatus::AwaitingDecision);

    let mut st = awaiting_decision();
    st.assignments[0].status = AssignmentStatus::Created;
    let started = st
        .settle_turn_start("assignment-1", "worker-1", "session-1", Ok("turn-9".to_string()), false, 51)
        .expect("started");
    assert_eq!(started.status, AssignmentStatus::Running);
    assert_eq!(st.worker_sessions[0].active_turn_id.as_deref(), Some("turn-9"));
}

#[test]
fn automatic_proposals_follow_the_switch_and_name_the_report() {
    let rep = report("report-1", "assignment-1");
    assert!(auto_proposal_request(false, &rep).is_none());
    let q = auto_proposal_request(true, &rep).expect("request");
    assert_eq!(q.work_unit_id, rep.work_unit_id);
    assert_eq!(q.source_report_id, "report-1");
    assert_eq!(q.requested_by, "orcasd_auto_report_recorded");
    assert_eq!(q.note, "Automatically synthesize the next bounded proposal for authoritative report `report-1`.");
}
