use orcas_daemon::assignment_comm::parse::{extract_envelope, parse_worker_report, parse_worker_report_for_turn};
use orcas_daemon::assignment_comm::policy::validate_assignment_packet;
use orcas_daemon::assignment_comm::{
    AcceptanceResult, AllowedScope, AssignmentCommunicationPacket, AssignmentModeSpec, AssignmentTaskMode,
    ImplementModePayload, ImplementModeSpec, PacketItem, ReportConfidence, ReportDisposition, ReportParseResult,
    ReviewSignal, ReviewSignalLevel, TouchedFile, WorkerReportContract, WorkerReportEnvelope, WorkerReportModePayload,
};
use orcas_daemon::model::{OrcasError, TurnLifecycleState};
use serde_json::Value;

fn sample_packet() -> AssignmentCommunicationPacket {
    AssignmentCommunicationPacket {
        schema_version: "assignment_communication_packet.v1".to_string(),
        packet_id: "packet-parse".to_string(),
        assignment_id: "assignment-parse".to_string(),
        source_decision_id: None,
        source_report_id: None,
        source_proposal_id: None,
        predecessor_assignment_id: None,
        task_mode: AssignmentTaskMode::Implement,
        mode_spec: AssignmentModeSpec::Implement(ImplementModeSpec { expected_verification_commands: Vec::new() }),
        objective: "Implement one bounded step.".to_string(),
        instructions: vec!["Implement the bounded task and report honestly.".to_string()],
        non_goals: Vec::new(),
        included_context: Vec::new(),
        acceptance_criteria: vec![PacketItem { id: "ac-1".to_string(), text: "The step works.".to_string() }],
        stop_conditions: vec![PacketItem { id: "sc-1".to_string(), text: "Stop when blocked.".to_string() }],
        allowed_scope: AllowedScope { allowed_write_paths: Vec::new() },
        response_contract: WorkerReportContract {
            schema_version: "worker_report_contract.v1".to_string(),
            task_mode: AssignmentTaskMode::Implement,
            marker_begin: "ORCAS_REPORT_BEGIN".to_string(),
            marker_end: "ORCAS_REPORT_END".to_string(),
        },
    }
}

fn sample_report_json(assignment_id: &str, packet_id: &str) -> String {
    format!(
        r#"{{
  "schema_version": "worker_report_envelope.v1",
  "assignment_id": "{assignment_id}",
  "packet_id": "{packet_id}",
  "task_mode": "implement",
  "disposition": "completed",
  "summary": "finished the bounded task",
  "confidence": "high",
  "acceptance_results": [],
  "triggered_stop_condition_ids": [],
  "touched_files": [],
  "commands_run": [],
  "artifacts": [],
  "blockers": [],
  "questions": [],
  "recommended_next_actions": ["apply supervisor decision"],
  "uncertainties": [],
  "review_signal": {{
    "level": "normal",
    "reasons": [],
    "focus": []
  }},
  "mode_payload": {{
    "kind": "implement",
    "semantic_changes": ["root cause isolated"],
    "tests_run": ["cargo test -p orcas-daemon"],
    "rough_edges": []
  }}
}}"#
    )
}

fn wrap_report_envelope(json: &str) -> String {
    format!("ORCAS_REPORT_BEGIN\n{json}\nORCAS_REPORT_END")
}

fn field<'a>(v: &'a Value, name: &str) -> Result<&'a Value, String> {
    v.get(name).ok_or_else(|| format!("missing field `{name}`"))
}

fn text(v: &Value, name: &str) -> Result<String, String> {
    field(v, name)?.as_str().map(str::to_string).ok_or_else(|| format!("`{name}` is not a string"))
}

fn texts(v: &Value, name: &str) -> Result<Vec<String>, String> {
    field(v, name)?
        .as_array()
        .ok_or_else(|| format!("`{name}` is not an array"))?
        .iter()
        .map(|x| x.as_str().map(str::to_string).ok_or_else(|| format!("`{name}` holds a non-string")))
        .collect()
}

/// Decodes an envelope the way the daemon's JSON decoder does: every field is required.
fn decode(json: &str) -> Result<WorkerReportEnvelope, String> {
    let v: Value = serde_json::from_str(json).map_err(|e| e.to_string())?;
    let disposition = match text(&v, "disposition")?.as_str() {
        "completed" => ReportDisposition::Completed,
        "partial" => ReportDisposition::Partial,
        "failed" => ReportDisposition::Failed,
        "interrupted" => ReportDisposition::Interrupted,
        "unknown" => ReportDisposition::Unknown,
        other => return Err(format!("unknown disposition `{other}`")),
    };
    let confidence = match text(&v, "confidence")?.as_str() {
        "high" => ReportConfidence::High,
        "medium" => ReportConfidence::Medium,
        "unknown" => ReportConfidence::Unknown,
        other => return Err(format!("unknown confidence `{other}`")),
    };
    if text(&v, "task_mode")? != "implement" {
        return Err("unknown task mode".to_string());
    }
    let review = field(&v, "review_signal")?;
    let level = match text(review, "level")?.as_str() {
        "normal" => ReviewSignalLevel::Normal,
        "required" => ReviewSignalLevel::Required,
        other => return Err(format!("unknown level `{other}`")),
    };
    let payload = field(&v, "mode_payload")?;
    if text(payload, "kind")? != "implement" {
        return Err("unknown mode payload".to_string());
    }
    let acceptance_results = field(&v, "acceptance_results")?
        .as_array()
        .ok_or("acceptance_results is not an array")?
        .iter()
        .map(|x| text(x, "criterion_id").map(|criterion_id| AcceptanceResult { criterion_id }))
        .collect::<Result<Vec<_>, _>>()?;
    let touched_files = field(&v, "touched_files")?
        .as_array()
        .ok_or("touched_files is not an array")?
        .iter()
        .map(|x| text(x, "path").map(|path| TouchedFile { path }))
        .collect::<Result<Vec<_>, _>>()?;
    Ok(WorkerReportEnvelope {
        schema_version: text(&v, "schema_version")?,
        assignment_id: text(&v, "assignment_id")?,
        packet_id: text(&v, "packet_id")?,
        task_mode: AssignmentTaskMode::Implement,
        disposition,
        summary: text(&v, "summary")?,
        confidence,
        acceptance_results,
        triggered_stop_condition_ids: texts(&v, "triggered_stop_condition_ids")?,
        touched_files,
        commands_run: texts(&v, "commands_run")?,
        artifacts: texts(&v, "artifacts")?,
        blockers: texts(&v, "blockers")?,
        questions: texts(&v, "questions")?,
        recommended_next_actions: texts(&v, "recommended_next_actions")?,
        uncertainties: texts(&v, "uncertainties")?,
        review_signal: ReviewSignal { level, reasons: texts(review, "reasons")?, focus: texts(review, "focus")? },
        mode_payload: WorkerReportModePayload::Implement(ImplementModePayload {
            semantic_changes: texts(payload, "semantic_changes")?,
            tests_run: texts(payload, "tests_run")?,
            rough_edges: texts(payload, "rough_edges")?,
        }),
    })
}

fn parse(raw: &str) -> orcas_daemon::assignment_comm::parse::ParsedWorkerReport {
    let extraction = extract_envelope(raw);
    let decoded = extraction.json_payload.as_deref().map(decode);
    parse_worker_report(&extraction, decoded, "assignment-parse", &sample_packet(), 1_000)
}

fn parse_for_turn(raw: &str, lifecycle: TurnLifecycleState) -> orcas_daemon::assignment_comm::parse::ParsedWorkerReport {
    let extraction = extract_envelope(raw);
    let decoded = extraction.json_payload.as_deref().map(decode);
    parse_worker_report_for_turn(raw, lifecycle, &extraction, decoded, "assignment-parse", &sample_packet(), 1_000)
}

#[test]
fn parse_worker_report_accepts_clean_contract() {
    let parsed = parse(&wrap_report_envelope(&sample_report_json("assignment-parse", "packet-parse")));
    assert_eq!(parsed.disposition, ReportDisposition::Completed);
    assert_eq!(parsed.confidence, ReportConfidence::High);
    assert_eq!(parsed.validation.parse_result, ReportParseResult::Parsed);
    assert!(!parsed.validation.needs_supervisor_review);
    assert_eq!(parsed.findings, vec!["root cause isolated".to_string()]);
    let envelope = parsed.envelope.expect("parsed envelope");
    assert!(envelope.touched_files.is_empty());
    assert!(envelope.commands_run.is_empty());
    assert!(envelope.acceptance_results.is_empty());
    assert!(envelope.artifacts.is_empty());
}

#[test]
fn parse_worker_report_flags_ambiguous_output_for_review() {
    let raw = format!(
        "here is the report\n{}",
        wrap_report_envelope(&sample_report_json("assignment-parse", "packet-parse"))
    );
    let parsed = parse(&raw);
    assert_eq!(parsed.disposition, ReportDisposition::Completed);
    assert_eq!(parsed.validation.parse_result, ReportParseResult::Ambiguous);
    assert!(parsed.validation.needs_supervisor_review);
}

#[test]
fn parse_worker_report_rejects_malformed_json() {
    let parsed = parse(&wrap_report_envelope("{ not valid json }"));
    assert_eq!(parsed.validation.parse_result, ReportParseResult::Invalid);
    assert!(parsed.validation.needs_supervisor_review);
    assert!(parsed.envelope.is_none());
}

#[test]
fn parse_worker_report_rejects_assignment_id_mismatch() {
    let parsed = parse(&wrap_report_envelope(&sample_report_json("assignment-other", "packet-parse")));
    assert_eq!(parsed.validation.parse_result, ReportParseResult::Invalid);
    assert!(parsed.validation.needs_supervisor_review);
}

#[test]
fn parse_worker_report_rejects_packet_id_mismatch() {
    let parsed = parse(&wrap_report_envelope(&sample_report_json("assignment-parse", "packet-other")));
    assert_eq!(parsed.validation.parse_result, ReportParseResult::Invalid);
    assert!(parsed.validation.needs_supervisor_review);
}

#[test]
fn parse_worker_report_requires_common_fields_to_exist() {
    let json = sample_report_json("assignment-parse", "packet-parse").replace("  \"questions\": [],\n", "");
    let parsed = parse(&wrap_report_envelope(&json));
    assert_eq!(parsed.validation.parse_result, ReportParseResult::Invalid);
    assert!(parsed.validation.needs_supervisor_review);
}

#[test]
fn parse_worker_report_invalid_output_requires_review_and_preserves_invalid_result() {
    let parsed = parse("no structured report here");
    assert_eq!(parsed.validation.parse_result, ReportParseResult::Invalid);
    assert!(parsed.validation.needs_supervisor_review);
}

#[test]
fn interrupted_turn_report_is_downgraded_for_supervisor_review() {
    let raw = wrap_report_envelope(&sample_report_json("assignment-parse", "packet-parse"));
    let parsed = parse_for_turn(&raw, TurnLifecycleState::Interrupted);
    assert_eq!(parsed.disposition, ReportDisposition::Interrupted);
    assert_eq!(parsed.confidence, ReportConfidence::Unknown);
    assert_eq!(parsed.validation.parse_result, ReportParseResult::Ambiguous);
    assert!(parsed.validation.needs_supervisor_review);
    assert!(parsed.findings.is_empty());
}

#[test]
fn lost_turn_report_stays_invalid_when_no_contract_exists() {
    let parsed = parse_for_turn("partial raw output", TurnLifecycleState::Lost);
    assert_eq!(parsed.disposition, ReportDisposition::Failed);
    assert_eq!(parsed.validation.parse_result, ReportParseResult::Invalid);
    assert!(parsed.validation.needs_supervisor_review);
    assert!(parsed.recommended_next_actions.is_empty());
}

#[test]
fn extraction_finds_exactly_one_envelope() {
    let e = extract_envelope("before\nORCAS_REPORT_BEGIN\n  {\"a\": 1}  \nORCAS_REPORT_END\n");
    assert_eq!(e.json_payload.as_deref(), Some("{\"a\": 1}"));
    assert!(e.surrounding_text);
    let e = extract_envelope("ORCAS_REPORT_BEGIN\n{}\nORCAS_REPORT_END\n  \n");
    assert_eq!(e.json_payload.as_deref(), Some("{}"));
    assert!(!e.surrounding_text);
    let twice = "ORCAS_REPORT_BEGIN\n{}\nORCAS_REPORT_END\nORCAS_REPORT_BEGIN\n{}\nORCAS_REPORT_END";
    assert!(extract_envelope(twice).json_payload.is_none());
    assert!(extract_envelope("ORCAS_REPORT_BEGIN only").json_payload.is_none());
    assert!(extract_envelope("nothing").json_payload.is_none());
}

#[test]
fn packets_must_carry_criteria_and_v1_markers() {
    assert!(validate_assignment_packet(&sample_packet()).is_ok());
    let mut p = sample_packet();
    p.acceptance_criteria.clear();
    match validate_assignment_packet(&p) {
        Err(OrcasError::Protocol(m)) => assert_eq!(m, "assignment communication packet requires at least one acceptance criterion"),
        other => panic!("unexpected {other:?}"),
    }
    let mut p = sample_packet();
    p.response_contract.marker_end = "END".to_string();
    match validate_assignment_packet(&p) {
        Err(OrcasError::Protocol(m)) => assert_eq!(m, "worker report contract markers do not match Orcas v1 markers"),
        other => panic!("unexpected {other:?}"),
    }
}
