use orcas_daemon::authority::import::{legacy_import_events, legacy_import_step, LegacyImportStep, LegacyWorkUnit, LegacyWorkstream};
use orcas_daemon::authority::store::AuthorityState;
use orcas_daemon::authority::types::{
    AuthorityCommand, AuthorityEvent, AuthorityMutationResult, CommandMetadata, CreateTrackedThread, CreateWorkUnit,
    CreateWorkstream, DeleteTarget, DeleteWorkUnit, DeleteWorkstream, EditWorkstream, WorkstreamPatch,
};
use orcas_daemon::model::{OrcasError, TrackedThreadBackendKind, WorkUnitStatus, WorkstreamStatus};

fn fresh_id() -> String {
    uuid::Uuid::new_v4().to_string()
}

fn metadata(command_id: &str, at: i64) -> CommandMetadata {
    CommandMetadata {
        command_id: command_id.to_string(),
        issued_at: at,
        origin_node_id: "node-1".to_string(),
        actor: "tester".to_string(),
        correlation_id: None,
    }
}

fn create_workstream(id: &str, command_id: &str) -> AuthorityCommand {
    AuthorityCommand::CreateWorkstream(CreateWorkstream {
        metadata: metadata(command_id, 10),
        workstream_id: id.to_string(),
        title: "Cascade".to_string(),
        objective: "Delete tree".to_string(),
        status: WorkstreamStatus::Active,
        priority: "normal".to_string(),
    })
}

fn create_work_unit(id: &str, workstream_id: &str, command_id: &str) -> AuthorityCommand {
    AuthorityCommand::CreateWorkUnit(CreateWorkUnit {
        metadata: metadata(command_id, 11),
        work_unit_id: id.to_string(),
        workstream_id: workstream_id.to_string(),
        title: "Leaf".to_string(),
        task_statement: "Delete".to_string(),
        status: WorkUnitStatus::Ready,
    })
}

fn create_tracked_thread(id: &str, work_unit_id: &str, upstream: Option<&str>, command_id: &str) -> AuthorityCommand {
    AuthorityCommand::CreateTrackedThread(CreateTrackedThread {
        metadata: metadata(command_id, 12),
        tracked_thread_id: id.to_string(),
        work_unit_id: work_unit_id.to_string(),
        title: "Thread".to_string(),
        notes: None,
        backend_kind: TrackedThreadBackendKind::Codex,
        upstream_thread_id: upstream.map(str::to_string),
        preferred_cwd: None,
        preferred_model: None,
    })
}

fn tree() -> AuthorityState {
    let mut store = AuthorityState::new();
    store.execute_command_at(create_workstream("ws-cascade", "c1"), 100, &fresh_id).expect("workstream");
    store.execute_command_at(create_work_unit("wu-cascade", "ws-cascade", "c2"), 101, &fresh_id).expect("work unit");
    store
        .execute_command_at(create_tracked_thread("tt-cascade", "wu-cascade", Some("upstream-cascade"), "c3"), 102, &fresh_id)
        .expect("tracked thread");
    store
}

fn protocol_message(e: OrcasError) -> String {
    match e {
        OrcasError::Protocol(m) => m,
        other => panic!("expected a protocol error, got {other:?}"),
    }
}

#[test]
fn parent_delete_cascades_to_children_as_explicit_events() {
    let mut store = tree();
    store
        .execute_command_at(
            AuthorityCommand::DeleteWorkstream(DeleteWorkstream {
                metadata: metadata("c4", 20),
                workstream_id: "ws-cascade".to_string(),
                expected_revision: 1,
                delete_token: "cascade-delete".to_string(),
            }),
            103, &fresh_id)
        .expect("delete workstream");
    let kinds: Vec<&AuthorityEvent> = store.events.iter().map(|e| &e.envelope.event).collect();
    assert!(kinds.iter().any(|e| matches!(e, AuthorityEvent::WorkstreamDeleted { .. })));
    assert!(kinds.iter().any(|e| matches!(e, AuthorityEvent::WorkUnitDeleted { .. })));
    assert!(kinds.iter().any(|e| matches!(e, AuthorityEvent::TrackedThreadDeleted { .. })));
    assert_eq!(store.events.len(), 6);
    for (i, e) in store.events.iter().enumerate() {
        assert_eq!(e.sequence, i as u64 + 1);
    }
    assert_eq!(store.last_applied_sequence, 6);
    assert_eq!(store.get_work_unit("wu-cascade").unwrap().deleted_at, Some(20));
    assert_eq!(store.get_tracked_thread("tt-cascade").unwrap().deleted_at, Some(20));
    assert_eq!(store.get_workstream("ws-cascade").unwrap().revision, 2);
    assert!(store.hierarchy_snapshot(false).workstreams.is_empty());
    assert_eq!(store.hierarchy_snapshot(true).workstreams.len(), 1);
}

#[test]
fn invalid_expected_revision_is_rejected() {
    let mut store = tree();
    let before = store.events.len();
    let err = store
        .execute_command_at(
            AuthorityCommand::EditWorkstream(EditWorkstream {
                metadata: metadata("c5", 30),
                workstream_id: "ws-cascade".to_string(),
                expected_revision: 7,
                changes: WorkstreamPatch { title: Some("New".to_string()), objective: None, status: None, priority: None },
            }),
            104, &fresh_id)
        .unwrap_err();
    let message = protocol_message(err);
    assert!(message.contains("revision mismatch"));
    assert_eq!(message, "workstream `ws-cascade` revision mismatch: expected 7, current 1");
    assert_eq!(store.events.len(), before);
    assert_eq!(store.get_workstream("ws-cascade").unwrap().title, "Cascade");
}

#[test]
fn replayed_command_id_answers_with_the_first_response() {
    let mut store = AuthorityState::new();
    let first = store.execute_command_at(create_workstream("ws-1", "same-id"), 100, &fresh_id).expect("created");
    let again = store.execute_command_at(create_workstream("ws-other", "same-id"), 200, &fresh_id).expect("replayed");
    match (first, again) {
        (AuthorityMutationResult::Workstream(a), AuthorityMutationResult::Workstream(b)) => {
            assert_eq!(a.id, "ws-1");
            assert_eq!(b.id, "ws-1");
        },
        _ => panic!("unexpected results"),
    }
    assert_eq!(store.workstreams.len(), 1);
    assert_eq!(store.events.len(), 1);
    assert_eq!(store.receipts.len(), 1);
}

#[test]
fn children_need_live_parents_and_bindings_stay_unique() {
    let mut store = tree();
    let err = store.execute_command_at(create_work_unit("wu-x", "ws-missing", "c6"), 105, &fresh_id).unwrap_err();
    assert_eq!(protocol_message(err), "unknown workstream `ws-missing`");
    let err = store
        .execute_command_at(create_tracked_thread("tt-2", "wu-cascade", Some("upstream-cascade"), "c7"), 106, &fresh_id)
        .unwrap_err();
    assert!(protocol_message(err).contains("upstream-cascade"));
    store
        .execute_command_at(
            AuthorityCommand::DeleteWorkUnit(DeleteWorkUnit {
                metadata: metadata("c8", 40),
                work_unit_id: "wu-cascade".to_string(),
                expected_revision: 1,
                delete_token: "t".to_string(),
            }),
            107, &fresh_id)
        .expect("delete work unit");
    assert_eq!(store.get_tracked_thread("tt-cascade").unwrap().deleted_at, Some(40));
    let err = store.execute_command_at(create_tracked_thread("tt-3", "wu-cascade", None, "c9"), 108, &fresh_id).unwrap_err();
    assert_eq!(protocol_message(err), "work unit `wu-cascade` has already been deleted locally");
}

#[test]
fn delete_plans_count_what_a_delete_takes_along() {
    let store = tree();
    let plan = store
        .delete_plan_at(&DeleteTarget::Workstream { workstream_id: "ws-cascade".to_string() }, 1_000, "token".to_string())
        .expect("plan");
    assert_eq!(plan.expected_revision, 1);
    assert_eq!(plan.affected_work_units, 1);
    assert_eq!(plan.affected_tracked_threads, 1);
    assert!(plan.has_upstream_bindings);
    assert_eq!(plan.confirmation_token, "token");
    assert!(store
        .delete_plan_at(&DeleteTarget::WorkUnit { work_unit_id: "wu-missing".to_string() }, 1_000, "t".to_string())
        .is_none());
}

#[test]
fn legacy_state_imports_oldest_first_and_replays() {
    let workstream = |id: &str, at: i64| LegacyWorkstream {
        id: id.to_string(),
        title: format!("title {id}"),
        objective: "objective".to_string(),
        status: WorkstreamStatus::Active,
        priority: "normal".to_string(),
        created_at: at,
        updated_at: at + 5,
    };
    let unit = LegacyWorkUnit {
        id: "wu-legacy".to_string(),
        workstream_id: "ws-b".to_string(),
        title: "Unit".to_string(),
        task_statement: "Task".to_string(),
        status: WorkUnitStatus::Ready,
        created_at: 30,
        updated_at: 31,
    };
    let events = legacy_import_events(
        vec![workstream("ws-c", 20), workstream("ws-b", 10), workstream("ws-a", 20)],
        vec![unit],
        "node-legacy", &fresh_id);
    let ids: Vec<String> = events.iter().map(|e| e.metadata.aggregate_id.clone()).collect();
    assert_eq!(ids, vec!["ws-b", "ws-a", "ws-c", "wu-legacy"]);
    for e in &events {
        assert_eq!(e.metadata.aggregate_version, 1);
        assert_eq!(e.metadata.origin_node_id, "node-legacy");
        assert!(e.metadata.causation_id.is_none());
    }
    assert_eq!(events[0].metadata.occurred_at, 10);
    assert_ne!(events[0].metadata.event_id, events[1].metadata.event_id);
    match &events[3].event {
        AuthorityEvent::WorkUnitCreated { work_unit } => {
            assert_eq!(work_unit.workstream_id, "ws-b");
            assert_eq!(work_unit.revision, 1);
            assert_eq!(work_unit.updated_at, 31);
            assert!(work_unit.deleted_at.is_none());
        }
        other => panic!("expected a work unit creation, got {other:?}"),
    }

    let mut store = AuthorityState::new();
    for e in events {
        store.append_event(e).expect("imported event applies");
    }
    assert_eq!(store.get_workstream("ws-a").unwrap().title, "title ws-a");
    assert_eq!(store.get_work_unit("wu-legacy").unwrap().status, WorkUnitStatus::Ready);
}

#[test]
fn created_records_read_back_as_answered() {
    let mut store = AuthorityState::new();
    let created = store.execute_command_at(create_workstream("ws-read", "c-read-1"), 100, &fresh_id).expect("created");
    let read = store.get_workstream("ws-read").expect("readable");
    match created {
        AuthorityMutationResult::Workstream(w) => {
            assert_eq!(w.id, read.id);
            assert_eq!(w.revision, read.revision);
            assert_eq!(w.created_at, read.created_at);
            assert_eq!(read.revision, 1);
        }
        other => panic!("expected a workstream, got {other:?}"),
    }
    store.execute_command_at(create_work_unit("wu-read", "ws-read", "c-read-2"), 101, &fresh_id).expect("created");
    assert_eq!(store.get_work_unit("wu-read").expect("readable").workstream_id, "ws-read");
    store
        .execute_command_at(create_tracked_thread("tt-read", "wu-read", Some("upstream-read"), "c-read-3"), 102, &fresh_id)
        .expect("created");
    assert_eq!(
        store.get_tracked_thread("tt-read").expect("readable").upstream_thread_id.as_deref(),
        Some("upstream-read")
    );
}

#[test]
fn legacy_import_runs_once_and_only_into_an_empty_store() {
    assert_eq!(legacy_import_step(true, false, true), LegacyImportStep::AlreadySettled);
    assert_eq!(legacy_import_step(false, true, true), LegacyImportStep::SkipExistingData);
    assert_eq!(legacy_import_step(false, false, false), LegacyImportStep::SkipNoStateFile);
    assert_eq!(legacy_import_step(false, false, true), LegacyImportStep::Import);
    assert_eq!(LegacyImportStep::AlreadySettled.recorded_status(), None);
    assert_eq!(LegacyImportStep::SkipExistingData.recorded_status().as_deref(), Some("existing_db"));
    assert_eq!(LegacyImportStep::SkipNoStateFile.recorded_status().as_deref(), Some("no_state_json"));
    assert_eq!(LegacyImportStep::Import.recorded_status().as_deref(), Some("imported_workstreams_work_units"));
    let mut store = AuthorityState::new();
    assert!(!store.has_authority_data());
    store.execute_command_at(create_workstream("ws-import", "c1"), 100, &fresh_id).expect("workstream");
    assert!(store.has_authority_data());
}
