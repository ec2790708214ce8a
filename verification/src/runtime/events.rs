use vstd::prelude::*;

use super::digest::{ConnectionState, DaemonEvent};
use super::ranking::newest_first;
use super::registry::{live_turns, turn_registered, RuntimeState};
use super::snippet::{
    is_final_turn_lifecycle, is_terminal_status, lifecycle_of, output_of, prefer_scope, preferred_scope, terminal_status,
    turn_lifecycle_from_status, turn_output,
};
use super::threads::{
    is_placeholder, placeholder_thread_view, refresh_thread_summary, same_turn, summary_refreshed, turn_upserted,
    upsert_turn,
};
use super::types::{opt_text, ItemView, ThreadSummary, ThreadView, TurnStateView, TurnView};
use crate::collaboration::keyed::{find, find_first, first_pos, keys_unique, pos_of, Keyed};
use crate::model::{copy_opt_string, TurnLifecycleState};
use crate::text::{cat2, cat3, owned, str_eq};

verus! {

/// The threads with a thread present: unchanged when it is, else with a placeholder appended;
/// `p` is its position.
pub open spec fn thread_ensured(pre: Seq<ThreadView>, post: Seq<ThreadView>, thread_id: Seq<char>, now: i64, p: int) -> bool {
    match pos_of(pre, thread_id) {
        Some(i) => post == pre && p == i,
        None => {
            &&& post.len() == pre.len() + 1
            &&& post.drop_last() == pre
            &&& is_placeholder(post.last(), thread_id, now)
            &&& p == pre.len()
        },
    }
}

/// The registry entry a turn event records.
pub open spec fn turn_event_state(
    ts: TurnStateView,
    thread: ThreadView,
    turn: TurnView,
    started: bool,
    now_ms: i64,
) -> bool {
    &&& ts.thread_id == thread.summary.id
    &&& ts.turn_id == turn.id
    &&& ts.lifecycle == (if started { TurnLifecycleState::Active } else { lifecycle_of(turn.status@) })
    &&& ts.status@ == turn.status@
    &&& ts.attachable == started
    &&& ts.live_stream == started
    &&& ts.terminal == !started
    &&& match output_of(turn.items@) {
        Some(o) => ts.recent_output is Some && ts.recent_output->0@ == o,
        None => ts.recent_output == thread.summary.recent_output,
    }
    &&& ts.recent_event is Some
    &&& ts.recent_event->0@ == "turn "@ + turn.status@
    &&& ts.updated_at == now_ms
    &&& ts.error_message == turn.error_message
}

/// What a turn starting (`started`) or completing did to a thread: touched at `now`, its scope
/// kept (or made "orcas_managed" on a start), its recent event the turn's status, the turn
/// upserted with that status, and its summary refreshed.
pub open spec fn thread_after_turn_event(
    pre: ThreadView,
    post: ThreadView,
    turn_id: Seq<char>,
    status: Seq<char>,
    started: bool,
    now: i64,
) -> bool {
    exists|n: TurnView, m: ThreadSummary| {
        &&& n.id@ == turn_id
        &&& n.status@ == status
        &&& n.error_message is None
        &&& n.items@.len() == 0
        &&& #[trigger] turn_upserted(pre.turns@, post.turns@, n)
        &&& m == ThreadSummary { updated_at: now, scope: m.scope, recent_event: m.recent_event, ..pre.summary }
        &&& m.scope@ == (if started { preferred_scope(pre.summary.scope@, "orcas_managed"@) } else { pre.summary.scope@ })
        &&& m.recent_event is Some
        &&& m.recent_event->0@ == "turn "@ + status
        &&& #[trigger] summary_refreshed(m, post.summary, post.turns@)
    }
}

/// What a turn event did to the threads and the registry, given the threads `ensured` with the
/// event's thread at `p`, and the registry entry `ts` recorded.
pub open spec fn turn_event_effect(
    pre: RuntimeState,
    post: RuntimeState,
    r: (TurnView, ThreadSummary),
    thread_id: Seq<char>,
    turn_id: Seq<char>,
    status: Seq<char>,
    started: bool,
    now: i64,
    now_ms: i64,
    ensured: Seq<ThreadView>,
    p: int,
    ts: TurnStateView,
) -> bool {
    let th = post.threads@[p];
    &&& thread_ensured(pre.threads@, ensured, thread_id, now, p)
    &&& post.threads@ == ensured.update(p, th)
    &&& thread_after_turn_event(ensured[p], th, turn_id, status, started, now)
    &&& match first_pos(ensured[p].turns@, turn_id) {
        Some(k) => same_turn(r.0, th.turns@[k]),
        None => same_turn(r.0, th.turns@.last()),
    }
    &&& r.1 == th.summary
    &&& turn_event_state(ts, th, r.0, started, now_ms)
    &&& post.turns@ == turn_registered(pre.turns@, ts)
}

/// What a thread status change did to the threads, given the threads `ensured` with the thread at
/// `p`, and its summary `m` before the refresh.
pub open spec fn status_change_effect(
    pre: RuntimeState,
    post: RuntimeState,
    r: ThreadSummary,
    thread_id: Seq<char>,
    status: Seq<char>,
    now: i64,
    ensured: Seq<ThreadView>,
    p: int,
    m: ThreadSummary,
) -> bool {
    &&& thread_ensured(pre.threads@, ensured, thread_id, now, p)
    &&& post.threads@ == ensured.update(p, post.threads@[p])
    &&& post.threads@[p].turns == ensured[p].turns
    &&& m == ThreadSummary { status: m.status, recent_event: m.recent_event, updated_at: now, ..ensured[p].summary }
    &&& m.status@ == status
    &&& m.recent_event is Some && m.recent_event->0@ == "thread "@ + status
    &&& summary_refreshed(m, post.threads@[p].summary, ensured[p].turns@)
    &&& r == post.threads@[p].summary
}

/// What a thread start seen without a snapshot of the thread did to the threads, given the
/// threads `ensured` with the thread at `p`, and its summary `m` before the refresh: the preview
/// given, status "started", the live-observed scope unless it has its own, "thread started" as
/// its recent event, touched at `now`.
pub open spec fn thread_start_effect(
    pre: RuntimeState,
    post: RuntimeState,
    r: ThreadSummary,
    thread_id: Seq<char>,
    preview: Seq<char>,
    now: i64,
    ensured: Seq<ThreadView>,
    p: int,
    m: ThreadSummary,
) -> bool {
    let before = ensured[p].summary;
    &&& thread_ensured(pre.threads@, ensured, thread_id, now, p)
    &&& post.threads@ == ensured.update(p, post.threads@[p])
    &&& post.threads@[p].turns == ensured[p].turns
    &&& m == ThreadSummary { preview: m.preview, status: m.status, scope: m.scope, recent_event: m.recent_event, updated_at: now, ..before }
    &&& m.preview@ == preview
    &&& m.status@ == "started"@
    &&& m.scope@ == preferred_scope(before.scope@, "live_observed"@)
    &&& m.recent_event is Some && m.recent_event->0@ == "thread started"@
    &&& summary_refreshed(m, post.threads@[p].summary, ensured[p].turns@)
    &&& r == post.threads@[p].summary
}

/// An optional string slice as text.
pub open spec fn opt_str(o: Option<&str>) -> Option<Seq<char>> {
    match o {
        Some(s) => Some(s@),
        None => None,
    }
}

/// The turns with a turn present: unchanged when it is (at its first position `k`), else with a
/// fresh turn in progress appended at `k`.
pub open spec fn turn_entry_ensured(pre: Seq<TurnView>, post: Seq<TurnView>, turn_id: Seq<char>, k: int) -> bool {
    match first_pos(pre, turn_id) {
        Some(i) => post == pre && k == i,
        None => {
            &&& post.len() == pre.len() + 1
            &&& post.drop_last() == pre
            &&& post.last().id@ == turn_id
            &&& post.last().status@ == "in_progress"@
            &&& post.last().error_message is None
            &&& post.last().items@.len() == 0
            &&& k == pre.len()
        },
    }
}

/// The items with an item present: unchanged when it is (at its first position `j`), else with a
/// fresh item of the type appended at `j`.
pub open spec fn item_entry_ensured(pre: Seq<ItemView>, post: Seq<ItemView>, item_id: Seq<char>, item_type: Seq<char>, j: int) -> bool {
    match first_pos(pre, item_id) {
        Some(i) => post == pre && j == i,
        None => {
            &&& post.len() == pre.len() + 1
            &&& post.drop_last() == pre
            &&& post.last().id@ == item_id
            &&& post.last().item_type@ == item_type
            &&& post.last().status is None
            &&& post.last().text is None
            &&& j == pre.len()
        },
    }
}

/// An item after an update: the status given replaces its status, and a delta is appended to its
/// text.
pub open spec fn item_updated(pre: ItemView, post: ItemView, status: Option<Seq<char>>, delta: Option<Seq<char>>) -> bool {
    &&& post.id == pre.id
    &&& post.item_type == pre.item_type
    &&& match status {
        Some(s) => post.status is Some && post.status->0@ == s,
        None => post.status == pre.status,
    }
    &&& match delta {
        Some(d) => post.text is Some && post.text->0@ == (if pre.text is Some { pre.text->0@ } else { Seq::empty() }) + d,
        None => post.text == pre.text,
    }
}

/// What an item update did to a thread, given its turns `turns` with the turn at `k` and the
/// turn's items `items` with the item at `j`.
pub open spec fn thread_item_effect(
    pre: ThreadView,
    th: ThreadView,
    r: ItemView,
    turn_id: Seq<char>,
    item_id: Seq<char>,
    item_type: Seq<char>,
    status: Option<Seq<char>>,
    delta: Option<Seq<char>>,
    now: i64,
    turns: Seq<TurnView>,
    k: int,
    items: Seq<ItemView>,
    j: int,
) -> bool {
    let turn = th.turns@[k];
    &&& turn_entry_ensured(pre.turns@, turns, turn_id, k)
    &&& item_entry_ensured(turns[k].items@, items, item_id, item_type, j)
    &&& th.turns@.len() == turns.len()
    &&& forall|x: int| 0 <= x < turns.len() && x != k ==> #[trigger] th.turns@[x] == turns[x]
    &&& turn.id == turns[k].id && turn.status == turns[k].status && turn.error_message == turns[k].error_message
    &&& turn.items@.len() == items.len()
    &&& forall|x: int| 0 <= x < items.len() && x != j ==> #[trigger] turn.items@[x] == items[x]
    &&& item_updated(items[j], turn.items@[j], status, delta)
    &&& r == turn.items@[j]
    &&& exists|m: ThreadSummary| {
        &&& m == ThreadSummary { updated_at: now, scope: m.scope, recent_event: m.recent_event, ..pre.summary }
        &&& m.scope@ == preferred_scope(pre.summary.scope@, "live_observed"@)
        &&& m.recent_event is Some
        &&& m.recent_event->0@ == match status {
            Some(s) => item_type + " "@ + s,
            None => item_type + " updated"@,
        }
        &&& #[trigger] summary_refreshed(m, th.summary, th.turns@)
    }
}

/// The registry entry an item update records for the turn `turn` of the thread `th`.
pub open spec fn item_turn_state(ts: TurnStateView, th: ThreadView, turn: TurnView, thread_id: Seq<char>, turn_id: Seq<char>, live: bool, now_ms: i64) -> bool {
    &&& ts.thread_id@ == thread_id
    &&& ts.turn_id@ == turn_id
    &&& ts.lifecycle == lifecycle_of(turn.status@)
    &&& ts.status == turn.status
    &&& ts.attachable == (lifecycle_of(turn.status@) == TurnLifecycleState::Active)
    &&& ts.live_stream == live
    &&& ts.terminal == terminal_status(turn.status@)
    &&& match output_of(turn.items@) {
        Some(o) => ts.recent_output is Some && ts.recent_output->0@ == o,
        None => ts.recent_output == th.summary.recent_output,
    }
    &&& ts.recent_event == th.summary.recent_event
    &&& ts.updated_at == now_ms
    &&& ts.error_message == turn.error_message
}

/// What an item update did to the threads and the registry, given the threads `ensured` with the
/// event's thread at `p`, the thread's turns `turns` with the turn at `k`, the turn's items
/// `items` with the item at `j`, and the registry entry `ts` recorded.
pub open spec fn item_update_effect(
    pre: RuntimeState,
    post: RuntimeState,
    r: ItemView,
    thread_id: Seq<char>,
    turn_id: Seq<char>,
    item_id: Seq<char>,
    item_type: Seq<char>,
    status: Option<Seq<char>>,
    delta: Option<Seq<char>>,
    now: i64,
    now_ms: i64,
    ensured: Seq<ThreadView>,
    p: int,
    turns: Seq<TurnView>,
    k: int,
    items: Seq<ItemView>,
    j: int,
    ts: TurnStateView,
) -> bool {
    let th = post.threads@[p];
    &&& thread_ensured(pre.threads@, ensured, thread_id, now, p)
    &&& post.threads@ == ensured.update(p, th)
    &&& thread_item_effect(ensured[p], th, r, turn_id, item_id, item_type, status, delta, now, turns, k, items, j)
    &&& item_turn_state(ts, th, th.turns@[k], thread_id, turn_id, delta is Some || status is Some, now_ms)
    &&& post.turns@ == turn_registered(pre.turns@, ts)
}

/// Applies an item update to a thread; returns the turn's position and the item as stored.
fn item_into_thread(
    thread: &mut ThreadView,
    turn_id: &str,
    item_id: &str,
    item_type: &str,
    status: Option<&str>,
    delta: Option<String>,
    now: i64,
) -> (r: (usize, ItemView))
    ensures
        exists|turns: Seq<TurnView>, items: Seq<ItemView>, j: int| #[trigger] thread_item_effect(
            *old(thread), *final(thread), r.1, turn_id@, item_id@, item_type@, opt_str(status), opt_text(delta), now,
            turns, r.0 as int, items, j,
        ),
        r.0 < final(thread).turns@.len(),
{
    let ghost gstatus = opt_str(status);
    let ghost gdelta = opt_text(delta);
    let ghost th0 = *thread;
    thread.summary.updated_at = now;
    thread.summary.scope = prefer_scope(thread.summary.scope.as_str(), "live_observed");
    let k = match find_first(&thread.turns, turn_id) {
        Some(k) => k,
        None => {
            let n = thread.turns.len();
            thread.turns.push(TurnView { id: owned(turn_id), status: owned("in_progress"), error_message: None, items: Vec::new() });
            n
        },
    };
    let ghost turns = thread.turns@;
    proof {
        assert(turn_entry_ensured(th0.turns@, turns, turn_id@, k as int)) by {
            if first_pos(th0.turns@, turn_id@) is None {
                assert(turns.drop_last() =~= th0.turns@);
            }
        }
    }
    let mut turn = thread.turns.remove(k);
    let j = match find_first(&turn.items, item_id) {
        Some(j) => j,
        None => {
            let n = turn.items.len();
            turn.items.push(ItemView { id: owned(item_id), item_type: owned(item_type), status: None, text: None });
            n
        },
    };
    let ghost items = turn.items@;
    proof {
        assert(item_entry_ensured(turns[k as int].items@, items, item_id@, item_type@, j as int)) by {
            if first_pos(turns[k as int].items@, item_id@) is None {
                assert(items.drop_last() =~= turns[k as int].items@);
            }
        }
    }
    let mut item = turn.items.remove(j);
    match status {
        Some(s) => {
            item.status = Some(owned(s));
        },
        None => {},
    }
    match delta {
        Some(d) => {
            let mut text = match item.text {
                Some(t) => t,
                None => String::new(),
            };
            text.append(d.as_str());
            item.text = Some(text);
        },
        None => {},
    }
    let result = item.copy();
    turn.items.insert(j, item);
    assert(turn.items@ =~= items.update(j as int, item));
    thread.turns.insert(k, turn);
    assert(thread.turns@ =~= turns.update(k as int, turn));
    thread.summary.recent_event = Some(match status {
        Some(s) => cat3(item_type, " ", s),
        None => cat2(item_type, " updated"),
    });
    proof {
        reveal_strlit(" ");
        reveal_strlit(" updated");
    }
    let ghost m = thread.summary;
    refresh_thread_summary(thread);
    proof {
        assert(summary_refreshed(m, thread.summary, thread.turns@));
        assert(thread_item_effect(th0, *thread, result, turn_id@, item_id@, item_type@, gstatus, gdelta, now, turns, k as int, items, j as int));
    }
    let r = (k, result);
    assert(thread_item_effect(th0, *thread, r.1, turn_id@, item_id@, item_type@, gstatus, gdelta, now, turns, r.0 as int, items, j as int));
    r
}

impl RuntimeState {
    /// The position of a thread, adding a placeholder created at `now` (seconds) if it is new.
    pub fn ensure_thread_entry(&mut self, thread_id: &str, now: i64) -> (p: usize)
        requires
            old(self).wf(),
        ensures
            final(self).wf(),
            thread_ensured(old(self).threads@, final(self).threads@, thread_id@, now, p as int),
            p < final(self).threads@.len(),
            final(self).turns == old(self).turns,
            final(self).active_turns == old(self).active_turns,
            final(self).active_thread_id == old(self).active_thread_id,
            final(self).recent_thread_id == old(self).recent_thread_id,
            final(self).upstream == old(self).upstream,
    {
        match find(&self.threads, thread_id) {
            Some(i) => i,
            None => {
                let ghost s0 = self.threads@;
                let n = self.threads.len();
                self.threads.push(placeholder_thread_view(thread_id, now));
                proof {
                    assert(self.threads@.drop_last() =~= s0);
                    assert forall|a: int, b: int|
                        #![trigger self.threads@[a], self.threads@[b]]
                        0 <= a < self.threads@.len() && 0 <= b < self.threads@.len() && a != b
                            implies self.threads@[a].key() != self.threads@[b].key() by {
                        if a == s0.len() {
                            assert(s0[b].key() != thread_id@);
                        } else if b == s0.len() {
                            assert(s0[a].key() != thread_id@);
                        } else {
                            assert(s0[a] == self.threads@[a] && s0[b] == self.threads@[b]);
                        }
                    }
                }
                n
            },
        }
    }

    /// Records that a turn started (`started`) or completed with a status: the thread is touched
    /// and the turn upserted into it, the registry records the turn's state, the session's active
    /// turns are refreshed, and the thread becomes the recent one (and the active one, on a start
    /// or when no turn is active any more). Returns the turn as stored and the thread's summary.
    pub fn record_turn_event(
        &mut self,
        thread_id: &str,
        turn_id: &str,
        status: &str,
        started: bool,
        now: i64,
        now_ms: i64,
    ) -> (r: (TurnView, ThreadSummary))
        requires
            old(self).wf(),
        ensures
            final(self).wf(),
            exists|ensured: Seq<ThreadView>, p: int, ts: TurnStateView| #[trigger] turn_event_effect(
                *old(self), *final(self), r, thread_id@, turn_id@, status@, started, now, now_ms, ensured, p, ts,
            ),
            final(self).active_turns@.to_multiset() == live_turns(final(self).turns@).to_multiset(),
            newest_first(final(self).active_turns@),
            final(self).recent_thread_id is Some && final(self).recent_thread_id->0@ == thread_id@,
            if started || final(self).active_turns@.len() == 0 {
                final(self).active_thread_id is Some && final(self).active_thread_id->0@ == thread_id@
            } else {
                final(self).active_thread_id == old(self).active_thread_id
            },
    {
        let p = self.ensure_thread_entry(thread_id, now);
        let ghost ensured = self.threads@;
        let ghost pre_turns = self.turns@;
        let mut thread = self.threads.remove(p);
        let ghost th0 = thread;
        thread.summary.updated_at = now;
        if started {
            thread.summary.scope = prefer_scope(thread.summary.scope.as_str(), "orcas_managed");
        }
        thread.summary.recent_event = Some(cat2("turn ", status));
        let ghost m = thread.summary;
        let n = TurnView { id: owned(turn_id), status: owned(status), error_message: None, items: Vec::new() };
        let ghost gn = n;
        let turn = upsert_turn(&mut thread, n);
        refresh_thread_summary(&mut thread);
        proof {
            assert(turn_upserted(th0.turns@, thread.turns@, gn));
            assert(summary_refreshed(m, thread.summary, thread.turns@));
            assert(thread_after_turn_event(th0, thread, turn_id@, status@, started, now));
        }
        let recent_output = match turn_output(&turn) {
            Some(o) => Some(o),
            None => copy_opt_string(&thread.summary.recent_output),
        };
        let lifecycle = if started {
            TurnLifecycleState::Active
        } else {
            turn_lifecycle_from_status(turn.status.as_str())
        };
        let ts = TurnStateView {
            thread_id: thread.summary.id.clone(),
            turn_id: turn.id.clone(),
            lifecycle,
            status: turn.status.clone(),
            attachable: started,
            live_stream: started,
            terminal: !started,
            recent_output,
            recent_event: Some(cat2("turn ", turn.status.as_str())),
            updated_at: now_ms,
            error_message: copy_opt_string(&turn.error_message),
        };
        let summary = thread.summary.copy();
        let ghost fin_thread = thread;
        self.threads.insert(p, thread);
        proof {
            assert(self.threads@ =~= ensured.update(p as int, fin_thread));
            crate::collaboration::keyed::lemma_update_keyed(ensured, p as int, fin_thread);
        }
        let ghost gts = ts;
        self.upsert_turn_state(ts);
        self.refresh_session_from_turns();
        if started || self.active_turns.len() == 0 {
            self.active_thread_id = Some(owned(thread_id));
        }
        self.recent_thread_id = Some(owned(thread_id));
        let r = (turn, summary);
        proof {
            assert(thread_ensured(old(self).threads@, ensured, thread_id@, now, p as int));
            assert(turn_registered(old(self).turns@, gts) == self.turns@);
            assert(turn_event_effect(*old(self), *self, r, thread_id@, turn_id@, status@, started, now, now_ms, ensured, p as int, gts));
        }
        r
    }

    /// Records an item event of a turn: the thread (added if new) is touched at `now` and its
    /// scope kept or made "live_observed"; the turn and item are added if new; the status given
    /// replaces the item's and a delta is appended to its text; the thread's recent event names the
    /// item's type and status and its summary is refreshed; the registry records the turn's state
    /// and the session's active turns are refreshed. Returns the item as stored.
    pub fn update_item_state(
        &mut self,
        thread_id: &str,
        turn_id: &str,
        item_id: &str,
        item_type: &str,
        status: Option<&str>,
        delta: Option<String>,
        now: i64,
        now_ms: i64,
    ) -> (r: ItemView)
        requires
            old(self).wf(),
        ensures
            final(self).wf(),
            exists|ensured: Seq<ThreadView>, p: int, turns: Seq<TurnView>, k: int, items: Seq<ItemView>, j: int, ts: TurnStateView|
                #[trigger] item_update_effect(
                    *old(self), *final(self), r, thread_id@, turn_id@, item_id@, item_type@,
                    opt_str(status),
                    opt_text(delta),
                    now, now_ms, ensured, p, turns, k, items, j, ts,
                ),
            final(self).active_turns@.to_multiset() == live_turns(final(self).turns@).to_multiset(),
            newest_first(final(self).active_turns@),
            final(self).active_thread_id == old(self).active_thread_id,
            final(self).recent_thread_id == old(self).recent_thread_id,
    {
        let live_stream = delta.is_some() || status.is_some();
        let p = self.ensure_thread_entry(thread_id, now);
        let ghost ensured = self.threads@;
        let mut thread = self.threads.remove(p);
        let (k, result) = item_into_thread(&mut thread, turn_id, item_id, item_type, status, delta, now);
        let stored = &thread.turns[k];
        let turn_status = stored.status.clone();
        let recent_output = match turn_output(stored) {
            Some(o) => Some(o),
            None => copy_opt_string(&thread.summary.recent_output),
        };
        let lifecycle = turn_lifecycle_from_status(turn_status.as_str());
        let ts = TurnStateView {
            thread_id: owned(thread_id),
            turn_id: owned(turn_id),
            lifecycle,
            status: turn_status.clone(),
            attachable: !is_final_turn_lifecycle(lifecycle),
            live_stream,
            terminal: is_terminal_status(turn_status.as_str()),
            recent_output,
            recent_event: copy_opt_string(&thread.summary.recent_event),
            updated_at: now_ms,
            error_message: copy_opt_string(&stored.error_message),
        };
        let ghost fin = thread;
        assert(item_turn_state(ts, fin, fin.turns@[k as int], thread_id@, turn_id@, live_stream, now_ms));
        self.threads.insert(p, thread);
        proof {
            assert(self.threads@ =~= ensured.update(p as int, fin));
            crate::collaboration::keyed::lemma_update_keyed(ensured, p as int, fin);
        }
        let ghost gts = ts;
        self.upsert_turn_state(ts);
        self.refresh_session_from_turns();
        proof {
            assert(thread_ensured(old(self).threads@, ensured, thread_id@, now, p as int));
            let (turns, items, j) = choose|turns: Seq<TurnView>, items: Seq<ItemView>, j: int| #[trigger] thread_item_effect(
                ensured[p as int], fin, result, turn_id@, item_id@, item_type@, opt_str(status), opt_text(delta), now,
                turns, k as int, items, j,
            );
            assert(item_update_effect(
                *old(self), *self, result, thread_id@, turn_id@, item_id@, item_type@, opt_str(status), opt_text(delta),
                now, now_ms, ensured, p as int, turns, k as int, items, j, gts,
            ));
        }
        result
    }

    /// Records that a turn started.
    pub fn record_turn_started(&mut self, thread_id: &str, turn_id: &str, status: &str, now: i64, now_ms: i64) -> (r: (
        TurnView,
        ThreadSummary,
    ))
        requires
            old(self).wf(),
        ensures
            final(self).wf(),
            final(self).recent_thread_id is Some && final(self).recent_thread_id->0@ == thread_id@,
            final(self).active_thread_id is Some && final(self).active_thread_id->0@ == thread_id@,
            exists|ensured: Seq<ThreadView>, p: int, ts: TurnStateView| #[trigger] turn_event_effect(
                *old(self), *final(self), r, thread_id@, turn_id@, status@, true, now, now_ms, ensured, p, ts,
            ),
            final(self).active_turns@.to_multiset() == live_turns(final(self).turns@).to_multiset(),
            newest_first(final(self).active_turns@),
    {
        self.record_turn_event(thread_id, turn_id, status, true, now, now_ms)
    }

    /// Records that a turn completed with a status.
    pub fn record_turn_completed(&mut self, thread_id: &str, turn_id: &str, status: &str, now: i64, now_ms: i64) -> (r: (
        TurnView,
        ThreadSummary,
    ))
        requires
            old(self).wf(),
        ensures
            final(self).wf(),
            final(self).recent_thread_id is Some && final(self).recent_thread_id->0@ == thread_id@,
            exists|ensured: Seq<ThreadView>, p: int, ts: TurnStateView| #[trigger] turn_event_effect(
                *old(self), *final(self), r, thread_id@, turn_id@, status@, false, now, now_ms, ensured, p, ts,
            ),
            final(self).active_turns@.to_multiset() == live_turns(final(self).turns@).to_multiset(),
            newest_first(final(self).active_turns@),
            if final(self).active_turns@.len() == 0 {
                final(self).active_thread_id is Some && final(self).active_thread_id->0@ == thread_id@
            } else {
                final(self).active_thread_id == old(self).active_thread_id
            },
    {
        self.record_turn_event(thread_id, turn_id, status, false, now, now_ms)
    }

    /// Records that the upstream connection changed: the report is kept as the upstream state; on
    /// any status but "connected", every live turn of the registry is lost at `now_ms` and every
    /// thread marks its turns under way lost; then the session's active turns are refreshed.
    /// Returns what is announced, in order: the upstream state, then the session.
    pub fn apply_connection_state(&mut self, upstream: ConnectionState, now_ms: i64) -> (r: Vec<DaemonEvent>)
        requires
            old(self).wf(),
        ensures
            final(self).wf(),
            final(self).upstream == Some(upstream),
            r@.len() == 2,
            r@[0] == (DaemonEvent::UpstreamStatusChanged { upstream }),
            r@[1] matches DaemonEvent::SessionChanged { session }
                && session.active_thread_id == final(self).active_thread_id
                && session.active_turns@ == final(self).active_turns@,
            upstream.status@ == "connected"@ ==> final(self).turns == old(self).turns && final(self).threads == old(self).threads,
            upstream.status@ != "connected"@ ==> {
                &&& final(self).turns@.len() == old(self).turns@.len()
                &&& forall|j: int| 0 <= j < old(self).turns@.len()
                    ==> #[trigger] super::registry::turn_marked_lost(old(self).turns@[j], final(self).turns@[j], now_ms)
                &&& final(self).threads@.len() == old(self).threads@.len()
                &&& forall|j: int| 0 <= j < old(self).threads@.len()
                    ==> #[trigger] super::registry::thread_marked_lost(old(self).threads@[j], final(self).threads@[j])
                &&& final(self).active_turns@.len() == 0
            },
            final(self).active_turns@.to_multiset() == live_turns(final(self).turns@).to_multiset(),
            newest_first(final(self).active_turns@),
            final(self).active_thread_id == old(self).active_thread_id,
            final(self).recent_thread_id == old(self).recent_thread_id,
    {
        let connected = str_eq(upstream.status.as_str(), "connected");
        if !connected {
            self.mark_turns_lost(now_ms);
            proof {
                assert forall|j: int| 0 <= j < self.turns@.len() implies !super::registry::is_live(#[trigger] self.turns@[j]) by {
                    assert(super::registry::turn_marked_lost(old(self).turns@[j], self.turns@[j], now_ms));
                }
            }
        }
        self.refresh_session_from_turns();
        let announced = upstream.copy();
        self.upstream = Some(upstream);
        proof {
            if !connected {
                super::registry::lemma_no_live_turns(self.turns@);
                vstd::seq_lib::to_multiset_len(self.active_turns@);
                vstd::seq_lib::to_multiset_len(live_turns(self.turns@));
            }
        }
        let session = self.session_state();
        let mut events: Vec<DaemonEvent> = Vec::new();
        events.push(DaemonEvent::UpstreamStatusChanged { upstream: announced });
        events.push(DaemonEvent::SessionChanged { session });
        events
    }

    /// Records that a thread started, when no snapshot of it can be had: the thread (added if
    /// unknown) takes the preview, status "started", the live-observed scope unless it has its
    /// own, and "thread started" as its recent event; it is touched at `now`, its summary
    /// refreshed, and it becomes the recent thread. Returns its summary.
    pub fn apply_thread_started(&mut self, thread_id: &str, preview: String, now: i64) -> (r: ThreadSummary)
        requires
            old(self).wf(),
        ensures
            final(self).wf(),
            exists|ensured: Seq<ThreadView>, p: int, m: ThreadSummary| #[trigger] thread_start_effect(
                *old(self), *final(self), r, thread_id@, preview@, now, ensured, p, m,
            ),
            final(self).turns == old(self).turns,
            final(self).active_turns == old(self).active_turns,
            final(self).active_thread_id == old(self).active_thread_id,
            final(self).upstream == old(self).upstream,
            final(self).recent_thread_id is Some && final(self).recent_thread_id->0@ == thread_id@,
    {
        let p = self.ensure_thread_entry(thread_id, now);
        let ghost ensured = self.threads@;
        let ghost gpreview = preview@;
        let mut thread = self.threads.remove(p);
        thread.summary.preview = preview;
        thread.summary.status = owned("started");
        thread.summary.scope = prefer_scope(thread.summary.scope.as_str(), "live_observed");
        thread.summary.recent_event = Some(owned("thread started"));
        thread.summary.updated_at = now;
        let ghost m = thread.summary;
        refresh_thread_summary(&mut thread);
        let summary = thread.summary.copy();
        let ghost fin = thread;
        self.threads.insert(p, thread);
        proof {
            assert(self.threads@ =~= ensured.update(p as int, fin));
            crate::collaboration::keyed::lemma_update_keyed(ensured, p as int, fin);
            assert(summary_refreshed(m, fin.summary, ensured[p as int].turns@));
            assert(thread_ensured(old(self).threads@, ensured, thread_id@, now, p as int));
        }
        self.recent_thread_id = Some(owned(thread_id));
        assert(thread_start_effect(*old(self), *self, summary, thread_id@, gpreview, now, ensured, p as int, m));
        summary
    }

    /// Records that a thread's status changed: the thread (added if new) takes the status, says
    /// so as its recent event, is touched at `now` and its summary refreshed; it becomes the
    /// recent thread. Returns its summary.
    pub fn apply_thread_status_changed(&mut self, thread_id: &str, status: String, now: i64) -> (r: ThreadSummary)
        requires
            old(self).wf(),
        ensures
            final(self).wf(),
            exists|ensured: Seq<ThreadView>, p: int, m: ThreadSummary| #[trigger] status_change_effect(
                *old(self), *final(self), r, thread_id@, status@, now, ensured, p, m,
            ),
            final(self).turns == old(self).turns,
            final(self).active_turns == old(self).active_turns,
            final(self).active_thread_id == old(self).active_thread_id,
            final(self).recent_thread_id is Some && final(self).recent_thread_id->0@ == thread_id@,
    {
        let p = self.ensure_thread_entry(thread_id, now);
        let ghost ensured = self.threads@;
        let ghost gstatus = status@;
        let mut thread = self.threads.remove(p);
        thread.summary.recent_event = Some(cat2("thread ", status.as_str()));
        thread.summary.status = status;
        thread.summary.updated_at = now;
        let ghost m = thread.summary;
        refresh_thread_summary(&mut thread);
        let summary = thread.summary.copy();
        let ghost fin = thread;
        self.threads.insert(p, thread);
        proof {
            assert(self.threads@ =~= ensured.update(p as int, fin));
            crate::collaboration::keyed::lemma_update_keyed(ensured, p as int, fin);
            assert(summary_refreshed(m, fin.summary, ensured[p as int].turns@));
            assert(thread_ensured(old(self).threads@, ensured, thread_id@, now, p as int));
        }
        self.recent_thread_id = Some(owned(thread_id));
        assert(status_change_effect(*old(self), *self, summary, thread_id@, gstatus, now, ensured, p as int, m));
        summary
    }
}

} // verus!
