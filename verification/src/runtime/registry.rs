use vstd::prelude::*;

use super::digest::{ConnectionState, SessionState};
use super::ranking::{newest_first, sort_newest_first, Ranked};
use super::snippet::{lifecycle_of, output_of, terminal_status, is_terminal_status, turn_lifecycle_from_status, turn_output};
use super::threads::{in_flight, last_text, refresh_thread_summary, same_turn, summary_refreshed};
use super::types::{ActiveTurn, ThreadSummary, ThreadView, TurnKey, TurnStateView, TurnView};
use crate::collaboration::keyed::{find, find_first, first_pos, get, keys_unique, lemma_update_keyed, Keyed};
use crate::collaboration::types::CollaborationState;
use crate::ids::{utc_seconds_in_range, utc_seconds_to_millis};
use crate::model::{copy_opt_string, TurnLifecycleState};
use crate::text::{cat2, owned, str_eq};

verus! {

/// The daemon's runtime view: its threads, the turn registry, the session's active turns, and the
/// threads in focus.
#[derive(Debug)]
pub struct RuntimeState {
    pub threads: Vec<ThreadView>,
    pub turns: Vec<TurnStateView>,
    pub active_turns: Vec<ActiveTurn>,
    pub active_thread_id: Option<String>,
    pub recent_thread_id: Option<String>,
    /// The upstream connection as last reported, if it was.
    pub upstream: Option<ConnectionState>,
}

impl Ranked for ActiveTurn {
    open spec fn rank_time(&self) -> i64 { self.updated_at }
    open spec fn rank_name(&self) -> Seq<char> { self.turn_id@ }
    fn time(&self) -> (r: i64) { self.updated_at }
    fn name(&self) -> (r: &str) { self.turn_id.as_str() }
}

impl Ranked for ThreadSummary {
    open spec fn rank_time(&self) -> i64 { self.updated_at }
    open spec fn rank_name(&self) -> Seq<char> { self.id@ }
    fn time(&self) -> (r: i64) { self.updated_at }
    fn name(&self) -> (r: &str) { self.id.as_str() }
}

/// Whether no two turns of the registry share a thread and turn id.
pub open spec fn turns_unique(s: Seq<TurnStateView>) -> bool {
    forall|i: int, j: int|
        #![trigger s[i], s[j]]
        0 <= i < s.len() && 0 <= j < s.len() && i != j ==> !(s[i].thread_id@ == s[j].thread_id@ && s[i].turn_id@ == s[j].turn_id@)
}

/// The registry position of a turn of a thread.
pub open spec fn turn_pos(s: Seq<TurnStateView>, thread_id: Seq<char>, turn_id: Seq<char>) -> Option<int> {
    if exists|i: int| 0 <= i < s.len() && (#[trigger] s[i]).thread_id@ == thread_id && s[i].turn_id@ == turn_id {
        Some(choose|i: int| 0 <= i < s.len() && (#[trigger] s[i]).thread_id@ == thread_id && s[i].turn_id@ == turn_id)
    } else {
        None
    }
}

/// The registry's state of a turn of a thread.
pub open spec fn turn_get(s: Seq<TurnStateView>, thread_id: Seq<char>, turn_id: Seq<char>) -> Option<TurnStateView> {
    match turn_pos(s, thread_id, turn_id) {
        Some(i) => Some(s[i]),
        None => None,
    }
}

/// The registry with a turn's state recorded, replacing the state it had.
pub open spec fn turn_registered(s: Seq<TurnStateView>, t: TurnStateView) -> Seq<TurnStateView> {
    match turn_pos(s, t.thread_id@, t.turn_id@) {
        Some(i) => s.update(i, t),
        None => s.push(t),
    }
}

/// Whether an operator can attach to a turn: it is attachable and active.
pub open spec fn is_live(t: TurnStateView) -> bool {
    t.attachable && t.lifecycle == TurnLifecycleState::Active
}

/// A live turn as the session lists it.
pub open spec fn as_active(t: TurnStateView) -> ActiveTurn {
    ActiveTurn { thread_id: t.thread_id, turn_id: t.turn_id, status: t.status, updated_at: t.updated_at }
}

/// The live turns of the registry, in its order, as the session lists them.
pub open spec fn live_turns(s: Seq<TurnStateView>) -> Seq<ActiveTurn>
    decreases s.len(),
{
    if s.len() == 0 {
        Seq::empty()
    } else if is_live(s.last()) {
        live_turns(s.drop_last()).push(as_active(s.last()))
    } else {
        live_turns(s.drop_last())
    }
}

/// With no live turn in the registry, the session lists no active turn: once continuity is lost,
/// nothing stays attachable.
pub proof fn lemma_no_live_turns(s: Seq<TurnStateView>)
    requires
        forall|j: int| 0 <= j < s.len() ==> !is_live(#[trigger] s[j]),
    ensures
        live_turns(s) == Seq::<ActiveTurn>::empty(),
    decreases s.len(),
{
    if s.len() > 0 {
        assert(!is_live(s[s.len() - 1]));
        assert forall|j: int| 0 <= j < s.drop_last().len() implies !is_live(#[trigger] s.drop_last()[j]) by {
            assert(s.drop_last()[j] == s[j]);
        }
        lemma_no_live_turns(s.drop_last());
    }
}

/// The message a turn lost with the daemon's continuity carries.
pub open spec fn lost_message() -> Seq<char> {
    "daemon lost turn continuity"@
}

/// A registry entry after continuity was lost at `now`: a live turn is lost; others stay.
pub open spec fn turn_marked_lost(pre: TurnStateView, post: TurnStateView, now: i64) -> bool {
    if is_live(pre) {
        &&& post == TurnStateView {
            lifecycle: TurnLifecycleState::Lost,
            status: post.status,
            attachable: false,
            live_stream: false,
            terminal: true,
            recent_event: post.recent_event,
            updated_at: now,
            ..pre
        }
        &&& post.status@ == "lost"@
        &&& post.recent_event is Some
        &&& post.recent_event->0@ == lost_message()
    } else {
        post == pre
    }
}

/// Whether a thread's turn was still under way by its status.
pub open spec fn under_way(status: Seq<char>) -> bool {
    status == "submitted"@ || status == "started"@ || status == "in_progress"@
}

/// A thread's turn after continuity was lost: one under way is lost, with the message as its
/// error unless it has one.
pub open spec fn view_turn_lost(pre: TurnView, post: TurnView) -> bool {
    if under_way(pre.status@) {
        &&& post.id == pre.id
        &&& post.status@ == "lost"@
        &&& post.items@ == pre.items@
        &&& pre.error_message is Some ==> post.error_message == pre.error_message
        &&& pre.error_message is None ==> post.error_message is Some && post.error_message->0@ == lost_message()
    } else {
        same_turn(post, pre)
    }
}

/// A thread after continuity was lost: its turns under way are lost; if it had a turn in flight,
/// its recent event becomes the message and its summary is refreshed.
pub open spec fn thread_marked_lost(pre: ThreadView, post: ThreadView) -> bool {
    &&& post.turns@.len() == pre.turns@.len()
    &&& forall|j: int| 0 <= j < pre.turns@.len() ==> #[trigger] view_turn_lost(pre.turns@[j], post.turns@[j])
    &&& if pre.summary.turn_in_flight {
        exists|m: ThreadSummary| {
            &&& m == ThreadSummary { recent_event: m.recent_event, ..pre.summary }
            &&& m.recent_event is Some
            &&& m.recent_event->0@ == lost_message()
            &&& #[trigger] summary_refreshed(m, post.summary, post.turns@)
        }
    } else {
        post.summary == pre.summary
    }
}

impl ThreadView {
    /// A copy of the thread.
    pub fn copy(&self) -> (r: Self)
        ensures
            r.summary == self.summary,
            r.turns@.len() == self.turns@.len(),
            forall|j: int| 0 <= j < self.turns@.len() ==> same_turn(#[trigger] r.turns@[j], self.turns@[j]),
    {
        let mut turns: Vec<TurnView> = Vec::new();
        let mut i: usize = 0;
        while i < self.turns.len()
            invariant
                i <= self.turns@.len(),
                turns@.len() == i,
                forall|j: int| 0 <= j < i ==> same_turn(#[trigger] turns@[j], self.turns@[j]),
            decreases self.turns.len() - i,
        {
            turns.push(self.turns[i].copy());
            i = i + 1;
        }
        ThreadView { summary: self.summary.copy(), turns }
    }
}

fn find_turn(turns: &Vec<TurnStateView>, thread_id: &str, turn_id: &str) -> (r: Option<usize>)
    requires
        turns_unique(turns@),
    ensures
        match r {
            Some(i) => turn_pos(turns@, thread_id@, turn_id@) == Some(i as int) && i < turns@.len(),
            None => turn_pos(turns@, thread_id@, turn_id@) is None,
        },
{
    let mut i: usize = 0;
    while i < turns.len()
        invariant
            i <= turns@.len(),
            turns_unique(turns@),
            forall|j: int| 0 <= j < i ==> !((#[trigger] turns@[j]).thread_id@ == thread_id@ && turns@[j].turn_id@ == turn_id@),
        decreases turns.len() - i,
    {
        if str_eq(turns[i].thread_id.as_str(), thread_id) && str_eq(turns[i].turn_id.as_str(), turn_id) {
            proof {
                let c = choose|k: int| 0 <= k < turns@.len() && (#[trigger] turns@[k]).thread_id@ == thread_id@ && turns@[k].turn_id@ == turn_id@;
                if c != i {
                    assert(!(turns@[c].thread_id@ == turns@[i as int].thread_id@ && turns@[c].turn_id@ == turns@[i as int].turn_id@));
                }
            }
            return Some(i);
        }
        i = i + 1;
    }
    None
}

/// Whether a work unit's current assignment runs in a session whose active turn is live.
pub open spec fn has_live_turn(collab: CollaborationState, turns: Seq<TurnStateView>, work_unit_id: Seq<char>) -> bool {
    match get(collab.work_units@, work_unit_id) {
        None => false,
        Some(w) => match w.current_assignment_id {
            None => false,
            Some(aid) => match get(collab.assignments@, aid@) {
                None => false,
                Some(a) => match get(collab.worker_sessions@, a.worker_session_id@) {
                    None => false,
                    Some(s) => match (s.thread_id, s.active_turn_id) {
                        (Some(th), Some(tu)) => match turn_get(turns, th@, tu@) {
                            Some(t) => is_live(t),
                            None => false,
                        },
                        _ => false,
                    },
                },
            },
        },
    }
}

/// A turn's state read back from a thread, as far as the thread shows it.
pub open spec fn state_from_thread(thread: ThreadView, t: TurnView, r: TurnStateView, now: i64) -> bool {
    let terminal = terminal_status(t.status@);
    &&& r.thread_id == thread.summary.id
    &&& r.turn_id == t.id
    &&& r.lifecycle == (if terminal { lifecycle_of(t.status@) } else { TurnLifecycleState::Unknown })
    &&& r.status == t.status
    &&& !r.attachable
    &&& !r.live_stream
    &&& r.terminal == terminal
    &&& match output_of(t.items@) {
        Some(o) => r.recent_output is Some && r.recent_output->0@ == o,
        None => r.recent_output == thread.summary.recent_output,
    }
    &&& if thread.summary.recent_event is Some {
        r.recent_event == thread.summary.recent_event
    } else {
        r.recent_event is Some && r.recent_event->0@ == "turn "@ + t.status@
    }
    &&& r.updated_at == (if utc_seconds_in_range(thread.summary.updated_at) { thread.summary.updated_at * 1000 } else { now as int })
    &&& r.error_message == t.error_message
}

/// A turn's state read back from a thread: its lifecycle is the one its status names when that
/// is terminal, else unknown; it is not attachable.
pub fn turn_state_from_thread_view(thread: &ThreadView, turn_id: &str, now: i64) -> (r: Option<TurnStateView>)
    ensures
        match first_pos(thread.turns@, turn_id@) {
            None => r is None,
            Some(k) => r is Some && state_from_thread(*thread, thread.turns@[k], r->0, now),
        },
{
    let k = match find_first(&thread.turns, turn_id) {
        None => {
            return None;
        },
        Some(k) => k,
    };
    let turn = &thread.turns[k];
    let terminal = is_terminal_status(turn.status.as_str());
    let lifecycle = if terminal {
        turn_lifecycle_from_status(turn.status.as_str())
    } else {
        TurnLifecycleState::Unknown
    };
    let recent_output = match turn_output(turn) {
        Some(o) => Some(o),
        None => copy_opt_string(&thread.summary.recent_output),
    };
    let recent_event = match &thread.summary.recent_event {
        Some(e) => Some(e.clone()),
        None => Some(cat2("turn ", turn.status.as_str())),
    };
    let updated_at = match utc_seconds_to_millis(thread.summary.updated_at) {
        Some(ms) => ms,
        None => now,
    };
    Some(TurnStateView {
        thread_id: thread.summary.id.clone(),
        turn_id: turn.id.clone(),
        lifecycle,
        status: turn.status.clone(),
        attachable: false,
        live_stream: false,
        terminal,
        recent_output,
        recent_event,
        updated_at,
        error_message: copy_opt_string(&turn.error_message),
    })
}

/// The summaries of threads, in the threads' order.
pub open spec fn summaries_of(threads: Seq<ThreadView>) -> Seq<ThreadSummary> {
    threads.map_values(|t: ThreadView| t.summary)
}

/// The thread summaries listed newest first, ids ascending among equals.
pub fn sorted_thread_summaries(threads: &Vec<ThreadView>) -> (r: Vec<ThreadSummary>)
    ensures
        r@.to_multiset() == summaries_of(threads@).to_multiset(),
        newest_first(r@),
{
    let mut all: Vec<ThreadSummary> = Vec::new();
    let mut i: usize = 0;
    while i < threads.len()
        invariant
            i <= threads@.len(),
            all@ == summaries_of(threads@.take(i as int)),
        decreases threads.len() - i,
    {
        all.push(threads[i].summary.copy());
        assert(summaries_of(threads@.take(i as int + 1)) =~= summaries_of(threads@.take(i as int)).push(threads@[i as int].summary));
        i = i + 1;
    }
    assert(threads@.take(threads@.len() as int) =~= threads@);
    sort_newest_first(all)
}

/// Whether a thread belongs in the scoped listing: not merely discovered upstream, or busy.
pub open spec fn in_scope(s: ThreadSummary) -> bool {
    s.scope@ != "upstream_discovered"@ || s.turn_in_flight
}

/// The summaries in scope, in order.
pub open spec fn scoped(s: Seq<ThreadSummary>) -> Seq<ThreadSummary>
    decreases s.len(),
{
    if s.len() == 0 {
        Seq::empty()
    } else if in_scope(s.last()) {
        scoped(s.drop_last()).push(s.last())
    } else {
        scoped(s.drop_last())
    }
}

/// The listing of a sorted list of summaries: those in scope, or the first twenty when none is.
pub open spec fn scoped_listing(sorted: Seq<ThreadSummary>) -> Seq<ThreadSummary> {
    if scoped(sorted).len() == 0 {
        sorted.take(if sorted.len() < 20 { sorted.len() as int } else { 20 })
    } else {
        scoped(sorted)
    }
}

/// The thread summaries worth listing: sorted newest first, those in scope, or the first twenty
/// when none is.
pub fn scoped_thread_summaries(threads: &Vec<ThreadView>) -> (r: Vec<ThreadSummary>)
    ensures
        exists|sorted: Seq<ThreadSummary>| {
            &&& #[trigger] sorted.to_multiset() == summaries_of(threads@).to_multiset()
            &&& newest_first(sorted)
            &&& r@ == scoped_listing(sorted)
        },
{
    let sorted = sorted_thread_summaries(threads);
    let mut kept: Vec<ThreadSummary> = Vec::new();
    let mut i: usize = 0;
    while i < sorted.len()
        invariant
            i <= sorted@.len(),
            kept@ == scoped(sorted@.take(i as int)),
        decreases sorted.len() - i,
    {
        assert(sorted@.take(i as int + 1).drop_last() =~= sorted@.take(i as int));
        let s = &sorted[i];
        if !str_eq(s.scope.as_str(), "upstream_discovered") || s.turn_in_flight {
            kept.push(s.copy());
        }
        i = i + 1;
    }
    assert(sorted@.take(sorted@.len() as int) =~= sorted@);
    if kept.len() == 0 {
        let n: usize = if sorted.len() < 20 { sorted.len() } else { 20 };
        let mut first: Vec<ThreadSummary> = Vec::new();
        let mut j: usize = 0;
        while j < n
            invariant
                n <= sorted@.len(),
                j <= n,
                first@ == sorted@.take(j as int),
            decreases n - j,
        {
            first.push(sorted[j].copy());
            assert(first@ =~= sorted@.take(j as int + 1));
            j = j + 1;
        }
        first
    } else {
        kept
    }
}

impl RuntimeState {
    /// Threads are keyed by id, turns by thread and turn id.
    pub open spec fn wf(&self) -> bool {
        keys_unique(self.threads@) && turns_unique(self.turns@)
    }

    /// An empty runtime view.
    pub fn new() -> (r: Self)
        ensures
            r.wf(),
            r.threads@.len() == 0,
            r.turns@.len() == 0,
            r.active_turns@.len() == 0,
            r.active_thread_id is None,
            r.recent_thread_id is None,
            r.upstream is None,
    {
        RuntimeState {
            threads: Vec::new(),
            turns: Vec::new(),
            active_turns: Vec::new(),
            active_thread_id: None,
            recent_thread_id: None,
            upstream: None,
        }
    }

    /// Records a turn's state in the registry, replacing the state it had.
    pub fn upsert_turn_state(&mut self, turn: TurnStateView)
        requires
            old(self).wf(),
        ensures
            final(self).wf(),
            final(self).turns@ == turn_registered(old(self).turns@, turn),
            final(self).threads == old(self).threads,
            final(self).active_turns == old(self).active_turns,
            final(self).active_thread_id == old(self).active_thread_id,
            final(self).recent_thread_id == old(self).recent_thread_id,
    {
        let ghost s0 = self.turns@;
        match find_turn(&self.turns, turn.thread_id.as_str(), turn.turn_id.as_str()) {
            Some(i) => {
                self.turns.set(i, turn);
                proof {
                    assert forall|a: int, b: int|
                        #![trigger self.turns@[a], self.turns@[b]]
                        0 <= a < self.turns@.len() && 0 <= b < self.turns@.len() && a != b
                            implies !(self.turns@[a].thread_id@ == self.turns@[b].thread_id@ && self.turns@[a].turn_id@ == self.turns@[b].turn_id@) by {
                        assert(!(s0[a].thread_id@ == s0[b].thread_id@ && s0[a].turn_id@ == s0[b].turn_id@));
                    }
                }
            },
            None => {
                self.turns.push(turn);
                proof {
                    assert forall|a: int, b: int|
                        #![trigger self.turns@[a], self.turns@[b]]
                        0 <= a < self.turns@.len() && 0 <= b < self.turns@.len() && a != b
                            implies !(self.turns@[a].thread_id@ == self.turns@[b].thread_id@ && self.turns@[a].turn_id@ == self.turns@[b].turn_id@) by {
                        if a < s0.len() && b < s0.len() {
                            assert(!(s0[a].thread_id@ == s0[b].thread_id@ && s0[a].turn_id@ == s0[b].turn_id@));
                        } else if a == s0.len() {
                            assert(!(s0[b].thread_id@ == self.turns@[a].thread_id@ && s0[b].turn_id@ == self.turns@[a].turn_id@));
                        } else {
                            assert(!(s0[a].thread_id@ == self.turns@[b].thread_id@ && s0[a].turn_id@ == self.turns@[b].turn_id@));
                        }
                    }
                }
            },
        }
    }

    /// Sets the session's active turns: the live turns of the registry, newest first, turn ids
    /// ascending among equals.
    pub fn refresh_session_from_turns(&mut self)
        requires
            old(self).wf(),
        ensures
            final(self).wf(),
            final(self).active_turns@.to_multiset() == live_turns(old(self).turns@).to_multiset(),
            newest_first(final(self).active_turns@),
            final(self).threads == old(self).threads,
            final(self).turns == old(self).turns,
            final(self).active_thread_id == old(self).active_thread_id,
            final(self).recent_thread_id == old(self).recent_thread_id,
            final(self).upstream == old(self).upstream,
    {
        let mut live: Vec<ActiveTurn> = Vec::new();
        let mut i: usize = 0;
        while i < self.turns.len()
            invariant
                i <= self.turns@.len(),
                live@ == live_turns(self.turns@.take(i as int)),
            decreases self.turns.len() - i,
        {
            assert(self.turns@.take(i as int + 1).drop_last() =~= self.turns@.take(i as int));
            let t = &self.turns[i];
            if t.attachable && matches!(t.lifecycle, TurnLifecycleState::Active) {
                live.push(ActiveTurn {
                    thread_id: t.thread_id.clone(),
                    turn_id: t.turn_id.clone(),
                    status: t.status.clone(),
                    updated_at: t.updated_at,
                });
            }
            i = i + 1;
        }
        assert(self.turns@.take(self.turns@.len() as int) =~= self.turns@);
        self.active_turns = sort_newest_first(live);
    }

    /// Records that the daemon lost continuity at `now`: live turns in the registry are lost,
    /// turns under way in the threads are lost, and busy threads say so.
    pub fn mark_turns_lost(&mut self, now: i64)
        requires
            old(self).wf(),
        ensures
            final(self).wf(),
            final(self).turns@.len() == old(self).turns@.len(),
            forall|j: int| 0 <= j < old(self).turns@.len() ==> #[trigger] turn_marked_lost(old(self).turns@[j], final(self).turns@[j], now),
            final(self).threads@.len() == old(self).threads@.len(),
            forall|j: int| 0 <= j < old(self).threads@.len() ==> #[trigger] thread_marked_lost(old(self).threads@[j], final(self).threads@[j]),
            final(self).active_turns == old(self).active_turns,
            final(self).active_thread_id == old(self).active_thread_id,
            final(self).recent_thread_id == old(self).recent_thread_id,
            final(self).upstream == old(self).upstream,
    {
        let ghost t0 = self.turns@;
        let mut i: usize = 0;
        while i < self.turns.len()
            invariant
                i <= self.turns@.len(),
                self.turns@.len() == t0.len(),
                forall|j: int| 0 <= j < i ==> #[trigger] turn_marked_lost(t0[j], self.turns@[j], now),
                forall|j: int| i <= j < t0.len() ==> #[trigger] self.turns@[j] == t0[j],
                forall|j: int| 0 <= j < t0.len() ==> (#[trigger] self.turns@[j]).thread_id == t0[j].thread_id
                    && self.turns@[j].turn_id == t0[j].turn_id,
                turns_unique(t0),
                self.threads == old(self).threads,
                self.active_turns == old(self).active_turns,
                self.upstream == old(self).upstream,
                self.active_thread_id == old(self).active_thread_id,
                self.recent_thread_id == old(self).recent_thread_id,
                old(self).wf(),
            decreases self.turns.len() - i,
        {
            if self.turns[i].attachable && matches!(self.turns[i].lifecycle, TurnLifecycleState::Active) {
                let ghost s0 = self.turns@;
                let mut t = self.turns.remove(i);
                t.lifecycle = TurnLifecycleState::Lost;
                t.status = owned("lost");
                t.attachable = false;
                t.live_stream = false;
                t.terminal = true;
                t.recent_event = Some(owned("daemon lost turn continuity"));
                t.updated_at = now;
                self.turns.insert(i, t);
                assert(self.turns@ =~= s0.update(i as int, t));
            }
            i = i + 1;
        }
        proof {
            assert forall|a: int, b: int|
                #![trigger self.turns@[a], self.turns@[b]]
                0 <= a < self.turns@.len() && 0 <= b < self.turns@.len() && a != b
                    implies !(self.turns@[a].thread_id@ == self.turns@[b].thread_id@ && self.turns@[a].turn_id@ == self.turns@[b].turn_id@) by {
                assert(!(t0[a].thread_id@ == t0[b].thread_id@ && t0[a].turn_id@ == t0[b].turn_id@));
            }
        }
        let ghost h0 = self.threads@;
        let mut k: usize = 0;
        while k < self.threads.len()
            invariant
                k <= self.threads@.len(),
                self.threads@.len() == h0.len(),
                forall|j: int| 0 <= j < k ==> #[trigger] thread_marked_lost(h0[j], self.threads@[j]),
                forall|j: int| k <= j < h0.len() ==> #[trigger] self.threads@[j] == h0[j],
                forall|j: int| 0 <= j < h0.len() ==> (#[trigger] self.threads@[j]).summary.id == h0[j].summary.id,
                keys_unique(h0),
                turns_unique(self.turns@),
                self.turns@.len() == t0.len(),
                forall|j: int| 0 <= j < t0.len() ==> #[trigger] turn_marked_lost(t0[j], self.turns@[j], now),
                self.active_turns == old(self).active_turns,
                self.upstream == old(self).upstream,
                self.active_thread_id == old(self).active_thread_id,
                self.recent_thread_id == old(self).recent_thread_id,
                h0 == old(self).threads@,
                t0 == old(self).turns@,
            decreases self.threads.len() - k,
        {
            let ghost s0 = self.threads@;
            let mut th = self.threads.remove(k);
            let ghost th0 = th;
            let mut j: usize = 0;
            while j < th.turns.len()
                invariant
                    j <= th.turns@.len(),
                    th.turns@.len() == th0.turns@.len(),
                    th.summary == th0.summary,
                    forall|m: int| 0 <= m < j ==> #[trigger] view_turn_lost(th0.turns@[m], th.turns@[m]),
                    forall|m: int| j <= m < th0.turns@.len() ==> #[trigger] th.turns@[m] == th0.turns@[m],
                decreases th.turns.len() - j,
            {
                let st = th.turns[j].status.as_str();
                if str_eq(st, "submitted") || str_eq(st, "started") || str_eq(st, "in_progress") {
                    let ghost u0 = th.turns@;
                    let mut tv = th.turns.remove(j);
                    tv.status = owned("lost");
                    if tv.error_message.is_none() {
                        tv.error_message = Some(owned("daemon lost turn continuity"));
                    }
                    th.turns.insert(j, tv);
                    assert(th.turns@ =~= u0.update(j as int, tv));
                }
                j = j + 1;
            }
            if th.summary.turn_in_flight {
                th.summary.recent_event = Some(owned("daemon lost turn continuity"));
                let ghost m = th.summary;
                refresh_thread_summary(&mut th);
                assert(summary_refreshed(m, th.summary, th.turns@));
            }
            self.threads.insert(k, th);
            assert(self.threads@ =~= s0.update(k as int, th));
            k = k + 1;
        }
        proof {
            assert forall|a: int, b: int|
                #![trigger self.threads@[a], self.threads@[b]]
                0 <= a < self.threads@.len() && 0 <= b < self.threads@.len() && a != b
                    implies self.threads@[a].key() != self.threads@[b].key() by {
                assert(h0[a].key() != h0[b].key());
            }
        }
    }

    /// Whether a work unit's current assignment runs in a session whose active turn is live.
    pub fn work_unit_has_live_attachable_turn(&self, collab: &CollaborationState, work_unit_id: &str) -> (r: bool)
        requires
            self.wf(),
            collab.wf(),
        ensures
            r == has_live_turn(*collab, self.turns@, work_unit_id@),
    {
        let wi = match find(&collab.work_units, work_unit_id) {
            None => {
                return false;
            },
            Some(i) => i,
        };
        let aid = match &collab.work_units[wi].current_assignment_id {
            None => {
                return false;
            },
            Some(a) => a,
        };
        let ai = match find(&collab.assignments, aid.as_str()) {
            None => {
                return false;
            },
            Some(i) => i,
        };
        let si = match find(&collab.worker_sessions, collab.assignments[ai].worker_session_id.as_str()) {
            None => {
                return false;
            },
            Some(i) => i,
        };
        let session = &collab.worker_sessions[si];
        match (&session.thread_id, &session.active_turn_id) {
            (Some(th), Some(tu)) => match find_turn(&self.turns, th.as_str(), tu.as_str()) {
                Some(k) => self.turns[k].attachable && matches!(self.turns[k].lifecycle, TurnLifecycleState::Active),
                None => false,
            },
            _ => false,
        }
    }
}

impl Ranked for TurnStateView {
    open spec fn rank_time(&self) -> i64 { self.updated_at }
    open spec fn rank_name(&self) -> Seq<char> { self.turn_id@ }
    fn time(&self) -> (r: i64) { self.updated_at }
    fn name(&self) -> (r: &str) { self.turn_id.as_str() }
}

/// The live turns of the registry, in its order.
pub open spec fn live_turn_states(s: Seq<TurnStateView>) -> Seq<TurnStateView>
    decreases s.len(),
{
    if s.len() == 0 {
        Seq::empty()
    } else if is_live(s.last()) {
        live_turn_states(s.drop_last()).push(s.last())
    } else {
        live_turn_states(s.drop_last())
    }
}

/// The last `limit` turns of a list, in order.
pub open spec fn recent_of(turns: Seq<TurnView>, limit: nat) -> Seq<TurnView> {
    if limit >= turns.len() {
        turns
    } else {
        turns.skip(turns.len() - limit)
    }
}

/// The last `limit` turns of a thread, oldest first.
pub fn recent_turns(thread: &ThreadView, limit: usize) -> (r: Vec<TurnView>)
    ensures
        r@.len() == recent_of(thread.turns@, limit as nat).len(),
        forall|k: int| 0 <= k < r@.len() ==> same_turn(#[trigger] r@[k], recent_of(thread.turns@, limit as nat)[k]),
{
    let n = thread.turns.len();
    let start: usize = if limit >= n { 0 } else { n - limit };
    let ghost want = recent_of(thread.turns@, limit as nat);
    assert(want =~= thread.turns@.skip(start as int));
    let mut out: Vec<TurnView> = Vec::new();
    let mut i: usize = start;
    while i < n
        invariant
            start <= i <= n,
            n == thread.turns@.len(),
            want == thread.turns@.skip(start as int),
            out@.len() == i - start,
            forall|k: int| 0 <= k < out@.len() ==> same_turn(#[trigger] out@[k], want[k]),
        decreases n - i,
    {
        let ghost before = out@;
        out.push(thread.turns[i].copy());
        proof {
            assert forall|k: int| 0 <= k < out@.len() implies same_turn(#[trigger] out@[k], want[k]) by {
                if k < before.len() {
                    assert(out@[k] == before[k]);
                }
            }
        }
        i = i + 1;
    }
    out
}

impl RuntimeState {
    /// The turns an operator can attach to, most recently updated first, turn ids ascending
    /// among equals.
    pub fn turns_list_active(&self) -> (r: Vec<TurnStateView>)
        ensures
            r@.to_multiset() == live_turn_states(self.turns@).to_multiset(),
            newest_first(r@),
    {
        let mut live: Vec<TurnStateView> = Vec::new();
        let mut i: usize = 0;
        while i < self.turns.len()
            invariant
                i <= self.turns@.len(),
                live@ == live_turn_states(self.turns@.take(i as int)),
            decreases self.turns.len() - i,
        {
            assert(self.turns@.take(i as int + 1).drop_last() =~= self.turns@.take(i as int));
            let t = &self.turns[i];
            if t.attachable && t.lifecycle == TurnLifecycleState::Active {
                live.push(t.copy());
            }
            i = i + 1;
        }
        assert(self.turns@.take(self.turns@.len() as int) =~= self.turns@);
        sort_newest_first(live)
    }
}

/// The thread in focus: the active thread, else the most recent one, else the first listed.
pub open spec fn focus_id(st: RuntimeState, listed: Seq<ThreadSummary>) -> Option<Seq<char>> {
    if st.active_thread_id is Some {
        Some(st.active_thread_id->0@)
    } else if st.recent_thread_id is Some {
        Some(st.recent_thread_id->0@)
    } else if listed.len() > 0 {
        Some(listed[0].id@)
    } else {
        None
    }
}

/// Whether `i` holds a thread updated no earlier than any other.
pub open spec fn is_most_recent(threads: Seq<ThreadView>, i: int) -> bool {
    &&& 0 <= i < threads.len()
    &&& forall|j: int| 0 <= j < threads.len() ==> (#[trigger] threads[j]).summary.updated_at <= threads[i].summary.updated_at
}

impl RuntimeState {
    /// The thread in focus, if the daemon knows it.
    pub fn focus_thread_view(&self, listed: &Vec<ThreadSummary>) -> (r: Option<ThreadView>)
        requires
            self.wf(),
        ensures
            match focus_id(*self, listed@) {
                None => r is None,
                Some(id) => match get(self.threads@, id) {
                    None => r is None,
                    Some(t) => r is Some && r->0.summary == t.summary && r->0.turns@.len() == t.turns@.len()
                        && forall|j: int| 0 <= j < t.turns@.len() ==> same_turn(#[trigger] r->0.turns@[j], t.turns@[j]),
                },
            },
    {
        let id: &str = match &self.active_thread_id {
            Some(a) => a.as_str(),
            None => match &self.recent_thread_id {
                Some(t) => t.as_str(),
                None => {
                    if listed.len() == 0 {
                        return None;
                    }
                    listed[0].id.as_str()
                },
            },
        };
        match find(&self.threads, id) {
            Some(i) => Some(self.threads[i].copy()),
            None => None,
        }
    }

    /// Makes a thread the active and most recent one.
    pub fn set_active_thread(&mut self, thread_id: &str)
        ensures
            final(self).active_thread_id is Some && final(self).active_thread_id->0@ == thread_id@,
            final(self).recent_thread_id is Some && final(self).recent_thread_id->0@ == thread_id@,
            final(self).threads == old(self).threads,
            final(self).turns == old(self).turns,
            final(self).active_turns == old(self).active_turns,
    {
        self.active_thread_id = Some(owned(thread_id));
        self.recent_thread_id = Some(owned(thread_id));
    }

    /// The id of a most recently updated thread, if there is any thread.
    pub fn most_recent_thread_id(&self) -> (r: Option<String>)
        ensures
            r is None <==> self.threads@.len() == 0,
            r is Some ==> exists|i: int| #[trigger] is_most_recent(self.threads@, i) && self.threads@[i].summary.id == r->0,
    {
        if self.threads.len() == 0 {
            return None;
        }
        let mut b: usize = 0;
        let mut i: usize = 1;
        while i < self.threads.len()
            invariant
                b < i <= self.threads@.len(),
                forall|j: int| 0 <= j < i ==> (#[trigger] self.threads@[j]).summary.updated_at <= self.threads@[b as int].summary.updated_at,
            decreases self.threads.len() - i,
        {
            if self.threads[i].summary.updated_at > self.threads[b].summary.updated_at {
                b = i;
            }
            i = i + 1;
        }
        assert(is_most_recent(self.threads@, b as int));
        Some(self.threads[b].summary.id.clone())
    }
}

impl RuntimeState {
    /// The registry's state of the turn a key names, if it is registered.
    pub fn turn_from_registry(&self, key: &TurnKey) -> (r: Option<TurnStateView>)
        requires
            self.wf(),
        ensures
            r == turn_get(self.turns@, key.thread_id@, key.turn_id@),
    {
        match find_turn(&self.turns, key.thread_id.as_str(), key.turn_id.as_str()) {
            Some(i) => Some(self.turns[i].copy()),
            None => None,
        }
    }
}

impl RuntimeState {
    /// The session as clients see it: the active thread and the active turns.
    pub fn session_state(&self) -> (r: SessionState)
        ensures
            r.active_thread_id == self.active_thread_id,
            r.active_turns@ == self.active_turns@,
    {
        let mut turns: Vec<ActiveTurn> = Vec::new();
        let mut i: usize = 0;
        while i < self.active_turns.len()
            invariant
                i <= self.active_turns@.len(),
                turns@ == self.active_turns@.take(i as int),
            decreases self.active_turns.len() - i,
        {
            turns.push(self.active_turns[i].copy());
            assert(turns@ =~= self.active_turns@.take(i as int + 1));
            i = i + 1;
        }
        assert(turns@ =~= self.active_turns@);
        SessionState { active_thread_id: copy_opt_string(&self.active_thread_id), active_turns: turns }
    }
}

} // verus!
