use orcas_daemon::model::TurnLifecycleState;
use orcas_daemon::runtime::digest::{event_summary, ConnectionState, DaemonEvent};
use orcas_daemon::runtime::registry::{recent_turns, scoped_thread_summaries, sorted_thread_summaries, turn_state_from_thread_view, RuntimeState};
use orcas_daemon::runtime::snippet::{
    is_terminal_status, prefer_scope, truncate_snippet, turn_attach_failure_reason, turn_lifecycle_from_status, turn_output,
};
use orcas_daemon::runtime::threads::{refresh_thread_summary, upsert_item, upsert_turn};
use orcas_daemon::runtime::types::{ItemView, ThreadSummary, ThreadView, TurnKey, TurnStateView, TurnView};

fn sample_thread(id: &str, scope: &str, updated_at: i64) -> ThreadView {
    ThreadView {
        summary: ThreadSummary {
            id: id.to_string(),
            preview: format!("preview {id}"),
            name: None,
            model_provider: "openai".to_string(),
            cwd: "/tmp/orcas".to_string(),
            status: "idle".to_string(),
            created_at: updated_at - 10,
            updated_at,
            scope: scope.to_string(),
            recent_output: None,
            recent_event: None,
            turn_in_flight: false,
        },
        turns: Vec::new(),
    }
}

fn item(id: &str, status: Option<&str>, text: Option<&str>) -> ItemView {
    ItemView {
        id: id.to_string(),
        item_type: "agent_message".to_string(),
        status: status.map(str::to_string),
        text: text.map(str::to_string),
    }
}

#[test]
fn scoped_thread_summaries_prefer_orcas_relevant_threads() {
    let threads = vec![
        sample_thread("upstream", "upstream_discovered", 100),
        sample_thread("managed", "orcas_managed", 200),
    ];
    let scoped = scoped_thread_summaries(&threads);
    assert_eq!(scoped.len(), 1);
    assert_eq!(scoped[0].id, "managed");
}

#[test]
fn refresh_thread_summary_tracks_recent_output_and_in_flight() {
    let mut thread = sample_thread("thread-1", "orcas_managed", 200);
    thread.turns.push(TurnView {
        id: "turn-1".to_string(),
        status: "in_progress".to_string(),
        error_message: None,
        items: vec![item("item-1", Some("streaming"), Some("hello world"))],
    });

    refresh_thread_summary(&mut thread);

    assert!(thread.summary.turn_in_flight);
    assert_eq!(thread.summary.recent_output.as_deref(), Some("hello world"));
    assert_eq!(thread.summary.recent_event.as_deref(), Some("turn in progress"));
}

#[test]
fn mark_turns_lost_clears_attachment_and_session() {
    let mut state = RuntimeState::new();
    let mut thread = sample_thread("thread-1", "orcas_managed", 200);
    thread.summary.turn_in_flight = true;
    thread.turns.push(TurnView {
        id: "turn-1".to_string(),
        status: "in_progress".to_string(),
        error_message: None,
        items: vec![item("item-1", Some("streaming"), Some("partial output"))],
    });
    state.threads.push(thread);
    let key = TurnKey::new("thread-1", "turn-1");
    state.upsert_turn_state(TurnStateView {
        thread_id: key.thread_id.clone(),
        turn_id: key.turn_id.clone(),
        lifecycle: TurnLifecycleState::Active,
        status: "in_progress".to_string(),
        attachable: true,
        live_stream: true,
        terminal: false,
        recent_output: Some("partial output".to_string()),
        recent_event: Some("turn in progress".to_string()),
        updated_at: 1_700_000_000_000,
        error_message: None,
    });

    state.refresh_session_from_turns();
    assert_eq!(state.active_turns.len(), 1);

    state.mark_turns_lost(1_700_000_000_500);
    state.refresh_session_from_turns();

    let turn = state
        .turns
        .iter()
        .find(|t| t.thread_id == key.thread_id && t.turn_id == key.turn_id)
        .expect("turn exists");
    assert_eq!(turn.lifecycle, TurnLifecycleState::Lost);
    assert!(!turn.attachable);
    assert_eq!(turn.status, "lost");
    assert!(state.active_turns.is_empty());
    assert_eq!(state.threads[0].turns[0].status, "lost");
}

#[test]
fn turn_state_from_thread_view_distinguishes_terminal_and_unknown() {
    let mut completed = sample_thread("thread-1", "orcas_managed", 200);
    completed.turns.push(TurnView {
        id: "turn-1".to_string(),
        status: "completed".to_string(),
        error_message: None,
        items: vec![item("item-1", Some("completed"), Some("hello world"))],
    });

    let completed_state = turn_state_from_thread_view(&completed, "turn-1", 0).unwrap();
    assert_eq!(completed_state.lifecycle, TurnLifecycleState::Completed);
    assert!(!completed_state.attachable);
    assert_eq!(completed_state.recent_output.as_deref(), Some("hello world"));

    let mut unknown = sample_thread("thread-2", "orcas_managed", 210);
    unknown.turns.push(TurnView {
        id: "turn-2".to_string(),
        status: "in_progress".to_string(),
        error_message: None,
        items: Vec::new(),
    });

    let unknown_state = turn_state_from_thread_view(&unknown, "turn-2", 0).unwrap();
    assert_eq!(unknown_state.lifecycle, TurnLifecycleState::Unknown);
    assert!(!unknown_state.attachable);
    assert!(!unknown_state.live_stream);
}

#[test]
fn turn_state_from_thread_view_converts_seconds_and_misses_unknown_turns() {
    let mut thread = sample_thread("thread-3", "orcas_managed", 1_700_000_000);
    thread.turns.push(TurnView {
        id: "turn-3".to_string(),
        status: "failed".to_string(),
        error_message: Some("boom".to_string()),
        items: Vec::new(),
    });
    let state = turn_state_from_thread_view(&thread, "turn-3", 42).unwrap();
    assert_eq!(state.updated_at, 1_700_000_000_000);
    assert_eq!(state.lifecycle, TurnLifecycleState::Failed);
    assert!(state.terminal);
    assert_eq!(state.recent_event.as_deref(), Some("turn failed"));
    assert_eq!(state.error_message.as_deref(), Some("boom"));
    assert!(turn_state_from_thread_view(&thread, "turn-missing", 42).is_none());
}

#[test]
fn snippets_fold_whitespace_and_cut_at_160_characters() {
    assert_eq!(truncate_snippet("  hello \n\t world  "), "hello world");
    assert_eq!(truncate_snippet(""), "");
    let long = "x".repeat(170);
    let cut = truncate_snippet(&long);
    assert_eq!(cut.chars().count(), 163);
    assert!(cut.ends_with("..."));
    let exact = "y".repeat(160);
    assert_eq!(truncate_snippet(&exact), exact);
}

#[test]
fn turn_output_joins_item_texts() {
    let turn = TurnView {
        id: "t".to_string(),
        status: "completed".to_string(),
        error_message: None,
        items: vec![item("a", None, Some("first ")), item("b", None, None), item("c", None, Some("second"))],
    };
    assert_eq!(turn_output(&turn).as_deref(), Some("first second"));
    let empty = TurnView { id: "e".to_string(), status: "completed".to_string(), error_message: None, items: Vec::new() };
    assert!(turn_output(&empty).is_none());
}

#[test]
fn statuses_map_to_lifecycles() {
    assert_eq!(turn_lifecycle_from_status("completed"), TurnLifecycleState::Completed);
    assert_eq!(turn_lifecycle_from_status("failed"), TurnLifecycleState::Failed);
    assert_eq!(turn_lifecycle_from_status("cancelled"), TurnLifecycleState::Interrupted);
    assert_eq!(turn_lifecycle_from_status("interrupted"), TurnLifecycleState::Interrupted);
    assert_eq!(turn_lifecycle_from_status("lost"), TurnLifecycleState::Lost);
    assert_eq!(turn_lifecycle_from_status("unknown"), TurnLifecycleState::Unknown);
    assert_eq!(turn_lifecycle_from_status("in_progress"), TurnLifecycleState::Active);
    assert!(is_terminal_status("cancelled"));
    assert!(!is_terminal_status("submitted"));
    assert_eq!(prefer_scope("", "live_observed"), "live_observed");
    assert_eq!(prefer_scope("upstream_discovered", "orcas_managed"), "orcas_managed");
    assert_eq!(prefer_scope("orcas_managed", "live_observed"), "orcas_managed");
}

#[test]
fn attach_failure_reasons_follow_the_lifecycle() {
    let mut turn = TurnStateView {
        thread_id: "th".to_string(),
        turn_id: "tu".to_string(),
        lifecycle: TurnLifecycleState::Lost,
        status: "lost".to_string(),
        attachable: false,
        live_stream: false,
        terminal: true,
        recent_output: None,
        recent_event: None,
        updated_at: 0,
        error_message: None,
    };
    assert_eq!(
        turn_attach_failure_reason(&turn),
        "turn continuity was lost when Orcas lost daemon/upstream ownership"
    );
    turn.lifecycle = TurnLifecycleState::Completed;
    assert_eq!(turn_attach_failure_reason(&turn), "turn already completed; only terminal state is queryable");
}

#[test]
fn upserts_merge_turns_and_items_by_id() {
    let mut thread = sample_thread("th", "orcas_managed", 1);
    let first = upsert_turn(
        &mut thread,
        TurnView { id: "t1".to_string(), status: "in_progress".to_string(), error_message: None, items: vec![item("i1", Some("started"), None)] },
    );
    assert_eq!(first.status, "in_progress");
    let merged = upsert_turn(
        &mut thread,
        TurnView {
            id: "t1".to_string(),
            status: String::new(),
            error_message: Some("late".to_string()),
            items: vec![item("i1", None, Some("body"))],
        },
    );
    assert_eq!(thread.turns.len(), 1);
    assert_eq!(merged.status, "in_progress");
    assert_eq!(merged.error_message.as_deref(), Some("late"));
    assert_eq!(merged.items.len(), 1);
    assert_eq!(merged.items[0].status.as_deref(), Some("started"));
    assert_eq!(merged.items[0].text.as_deref(), Some("body"));

    let stored = upsert_item(&mut thread.turns[0], item("i2", Some("completed"), Some("more")));
    assert_eq!(stored.id, "i2");
    assert_eq!(thread.turns[0].items.len(), 2);
}

#[test]
fn thread_summaries_sort_newest_first_then_by_id() {
    let threads = vec![sample_thread("b", "orcas_managed", 5), sample_thread("a", "orcas_managed", 5), sample_thread("c", "orcas_managed", 9)];
    let sorted = sorted_thread_summaries(&threads);
    let ids: Vec<&str> = sorted.iter().map(|s| s.id.as_str()).collect();
    assert_eq!(ids, vec!["c", "a", "b"]);
}

#[test]
fn scoped_listing_falls_back_to_the_newest_twenty() {
    let threads: Vec<ThreadView> = (0..25).map(|i| sample_thread(&format!("u{i:02}"), "upstream_discovered", i)).collect();
    let scoped = scoped_thread_summaries(&threads);
    assert_eq!(scoped.len(), 20);
    assert_eq!(scoped[0].id, "u24");
}

#[test]
fn turn_events_update_the_registry_and_session() {
    let mut state = RuntimeState::new();
    let (turn, summary) = state.record_turn_started("th", "tu", "in_progress", 100, 100_000);
    assert_eq!(turn.status, "in_progress");
    assert_eq!(summary.scope, "live_observed");
    assert_eq!(summary.recent_event.as_deref(), Some("turn in_progress"));
    assert_eq!(state.active_turns.len(), 1);
    assert_eq!(state.active_thread_id.as_deref(), Some("th"));

    let item = state.update_item_state("th", "tu", "it", "agent_message", Some("streaming"), Some("hi\n".to_string()), 101, 101_000);
    assert_eq!(item.text.as_deref(), Some("hi\n"));
    let item = state.update_item_state("th", "tu", "it", "agent_message", None, Some("there".to_string()), 102, 102_000);
    assert_eq!(item.text.as_deref(), Some("hi\nthere"));
    assert_eq!(item.status.as_deref(), Some("streaming"));
    assert_eq!(state.threads[0].summary.recent_event.as_deref(), Some("agent_message updated"));

    let (done, _) = state.record_turn_completed("th", "tu", "completed", 103, 103_000);
    assert_eq!(done.status, "completed");
    assert!(state.active_turns.is_empty());
    let registered = state.turns.iter().find(|t| t.turn_id == "tu").unwrap();
    assert_eq!(registered.lifecycle, TurnLifecycleState::Completed);
    assert!(registered.terminal);

    state.apply_connection_state(upstream("disconnected"), 104_000);
    assert!(state.active_turns.is_empty());
    assert_eq!(state.upstream.as_ref().map(|u| u.status.as_str()), Some("disconnected"));
    let summary = state.apply_thread_status_changed("th", "idle".to_string(), 105);
    assert_eq!(summary.status, "idle");
    assert_eq!(state.recent_thread_id.as_deref(), Some("th"));
}

#[test]
fn event_summaries_name_the_event() {
    let summary = event_summary(
        &DaemonEvent::OutputDelta {
            thread_id: "th".to_string(),
            turn_id: "tu".to_string(),
            item_id: "it".to_string(),
            delta: "a\nb".to_string(),
        },
        7,
    )
    .unwrap();
    assert_eq!(summary.kind, "delta");
    assert_eq!(summary.message, "delta a\\nb");
    assert_eq!(summary.thread_id.as_deref(), Some("th"));
    assert_eq!(summary.turn_id.as_deref(), Some("tu"));
    assert_eq!(summary.timestamp, 7);

    let warning = event_summary(&DaemonEvent::Warning { message: "careful".to_string() }, 8).unwrap();
    assert_eq!(warning.kind, "warning");
    assert_eq!(warning.message, "careful");
    assert!(warning.thread_id.is_none());
}

fn turn_state(thread_id: &str, turn_id: &str, lifecycle: TurnLifecycleState, attachable: bool, updated_at: i64) -> TurnStateView {
    TurnStateView {
        thread_id: thread_id.to_string(),
        turn_id: turn_id.to_string(),
        lifecycle,
        status: "in_progress".to_string(),
        attachable,
        live_stream: attachable,
        terminal: false,
        recent_output: None,
        recent_event: None,
        updated_at,
        error_message: None,
    }
}

#[test]
fn active_turn_listing_keeps_live_turns_newest_first() {
    let mut state = RuntimeState::new();
    state.upsert_turn_state(turn_state("thread-1", "turn-b", TurnLifecycleState::Active, true, 10));
    state.upsert_turn_state(turn_state("thread-1", "turn-old", TurnLifecycleState::Active, true, 5));
    state.upsert_turn_state(turn_state("thread-2", "turn-a", TurnLifecycleState::Active, true, 10));
    state.upsert_turn_state(turn_state("thread-2", "turn-done", TurnLifecycleState::Completed, false, 50));
    state.upsert_turn_state(turn_state("thread-3", "turn-detached", TurnLifecycleState::Active, false, 60));
    let ids: Vec<String> = state.turns_list_active().into_iter().map(|t| t.turn_id).collect();
    assert_eq!(ids, vec!["turn-a", "turn-b", "turn-old"]);
}

#[test]
fn recent_turns_keep_the_last_ones_in_order() {
    let mut thread = sample_thread("thread-1", "orcas_managed", 200);
    for id in ["turn-1", "turn-2", "turn-3"] {
        thread.turns.push(TurnView {
            id: id.to_string(),
            status: "completed".to_string(),
            error_message: None,
            items: vec![item("item", Some("completed"), Some(id))],
        });
    }
    let ids: Vec<String> = recent_turns(&thread, 2).into_iter().map(|t| t.id).collect();
    assert_eq!(ids, vec!["turn-2", "turn-3"]);
    assert_eq!(recent_turns(&thread, 10).len(), 3);
    assert!(recent_turns(&thread, 0).is_empty());
    assert_eq!(recent_turns(&thread, 1)[0].items[0].text.as_deref(), Some("turn-3"));
}

#[test]
fn focus_follows_active_then_recent_then_first_listed() {
    let mut state = RuntimeState::new();
    state.threads.push(sample_thread("thread-1", "orcas_managed", 100));
    state.threads.push(sample_thread("thread-2", "orcas_managed", 300));
    state.threads.push(sample_thread("thread-3", "orcas_managed", 200));
    assert_eq!(state.most_recent_thread_id().as_deref(), Some("thread-2"));

    let listed = sorted_thread_summaries(&state.threads);
    assert_eq!(state.focus_thread_view(&listed).expect("focus").summary.id, "thread-2");
    assert!(state.focus_thread_view(&Vec::new()).is_none());

    state.recent_thread_id = Some("thread-3".to_string());
    assert_eq!(state.focus_thread_view(&listed).expect("focus").summary.id, "thread-3");

    state.set_active_thread("thread-1");
    assert_eq!(state.recent_thread_id.as_deref(), Some("thread-1"));
    assert_eq!(state.focus_thread_view(&listed).expect("focus").summary.id, "thread-1");

    state.set_active_thread("thread-404");
    assert!(state.focus_thread_view(&listed).is_none());
    assert!(RuntimeState::new().most_recent_thread_id().is_none());
}

fn upstream(status: &str) -> ConnectionState {
    ConnectionState { endpoint: "ws://127.0.0.1:4500".to_string(), status: status.to_string(), detail: None }
}

#[test]
fn disconnect_marks_live_turns_lost_and_keeps_the_upstream_state() {
    let mut state = RuntimeState::new();
    state.record_turn_started("th", "tu", "in_progress", 100, 100_000);
    let events = state.apply_connection_state(upstream("connected"), 100_500);
    assert_eq!(events.len(), 2);
    match &events[1] {
        DaemonEvent::SessionChanged { session } => {
            assert_eq!(session.active_turns.len(), 1);
            assert_eq!(session.active_turns[0].turn_id, "tu");
        },
        other => panic!("expected the session, got {other:?}"),
    }
    assert_eq!(state.active_turns.len(), 1);
    assert_eq!(state.turns[0].lifecycle, TurnLifecycleState::Active);

    let events = state.apply_connection_state(upstream("disconnected"), 101_000);
    assert_eq!(events.len(), 2);
    match &events[0] {
        DaemonEvent::UpstreamStatusChanged { upstream } => assert_eq!(upstream.status, "disconnected"),
        other => panic!("expected the upstream state, got {other:?}"),
    }
    match &events[1] {
        DaemonEvent::SessionChanged { session } => assert!(session.active_turns.is_empty()),
        other => panic!("expected the session, got {other:?}"),
    }
    assert_eq!(state.upstream.as_ref().unwrap().status, "disconnected");
    assert!(state.active_turns.is_empty());
    assert_eq!(state.turns.len(), 1);
    assert_eq!(state.turns[0].lifecycle, TurnLifecycleState::Lost);
    assert_eq!(state.turns[0].status, "lost");
    assert!(!state.turns[0].attachable);
    assert_eq!(state.turns[0].updated_at, 101_000);
    assert_eq!(state.threads[0].turns[0].status, "lost");
}

#[test]
fn thread_started_without_a_snapshot_records_a_started_thread() {
    let mut state = RuntimeState::new();
    let summary = state.apply_thread_started("th-new", "First prompt".to_string(), 200);
    assert_eq!(summary.id, "th-new");
    assert_eq!(summary.preview, "First prompt");
    assert_eq!(summary.status, "started");
    assert_eq!(summary.scope, "live_observed");
    assert_eq!(summary.recent_event.as_deref(), Some("thread started"));
    assert_eq!(summary.updated_at, 200);
    assert_eq!(state.recent_thread_id.as_deref(), Some("th-new"));
    assert_eq!(state.threads.len(), 1);

    state.threads[0].summary.scope = "orcas_managed".to_string();
    let again = state.apply_thread_started("th-new", "Second".to_string(), 201);
    assert_eq!(again.scope, "orcas_managed");
    assert_eq!(again.preview, "Second");
    assert_eq!(state.threads.len(), 1);
}

#[test]
fn turn_state_times_follow_the_calendar_range_exactly() {
    let cases: [(i64, i64); 4] = [
        (8_210_266_876_799, 8_210_266_876_799_000),
        (8_210_266_876_800, 42),
        (-8_334_601_228_800, -8_334_601_228_800_000),
        (-8_334_601_228_801, 42),
    ];
    for (secs, expected) in cases {
        let mut thread = sample_thread("thread-edge", "orcas_managed", secs);
        thread.turns.push(TurnView {
            id: "turn-edge".to_string(),
            status: "completed".to_string(),
            error_message: None,
            items: Vec::new(),
        });
        let state = turn_state_from_thread_view(&thread, "turn-edge", 42).unwrap();
        assert_eq!(state.updated_at, expected, "seconds {secs}");
        let dated = chrono::DateTime::from_timestamp(secs, 0).map(|t| t.timestamp_millis());
        assert_eq!(dated.unwrap_or(42), expected, "chrono at {secs}");
    }
}
