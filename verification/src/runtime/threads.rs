use vstd::prelude::*;
use vstd::string::StrSliceExecFns;

use super::snippet::{is_terminal_status, snippet, terminal_status, truncate_snippet};
use super::types::{ItemView, ThreadSummary, ThreadView, TurnView};
use crate::collaboration::keyed::{find_first, first_pos, Keyed};
use crate::model::copy_opt_string;
use crate::text::{cat2, is_blank, owned, str_is_blank};

verus! {

impl Keyed for ItemView {
    open spec fn key(&self) -> Seq<char> { self.id@ }
    fn key_str(&self) -> (r: &str) { self.id.as_str() }
}

impl Keyed for TurnView {
    open spec fn key(&self) -> Seq<char> { self.id@ }
    fn key_str(&self) -> (r: &str) { self.id.as_str() }
}

impl Keyed for ThreadView {
    open spec fn key(&self) -> Seq<char> { self.summary.id@ }
    fn key_str(&self) -> (r: &str) { self.summary.id.as_str() }
}

/// An item merged into the existing one with its id: what the new one says replaces what the
/// existing one said (an empty type says nothing).
pub open spec fn merged_item(e: ItemView, n: ItemView) -> ItemView {
    ItemView {
        id: e.id,
        item_type: if n.item_type@.len() > 0 { n.item_type } else { e.item_type },
        status: if n.status is Some { n.status } else { e.status },
        text: if n.text is Some { n.text } else { e.text },
    }
}

/// A turn's items with an item upserted: merged into the first with its id, else appended.
pub open spec fn item_upserted(items: Seq<ItemView>, n: ItemView) -> Seq<ItemView> {
    match first_pos(items, n.id@) {
        Some(k) => items.update(k, merged_item(items[k], n)),
        None => items.push(n),
    }
}

/// A turn's items with several items upserted in order.
pub open spec fn items_upserted(items: Seq<ItemView>, new: Seq<ItemView>) -> Seq<ItemView>
    decreases new.len(),
{
    if new.len() == 0 {
        items
    } else {
        item_upserted(items_upserted(items, new.drop_last()), new.last())
    }
}

/// Upserts an item into a turn; returns the item as stored.
pub fn upsert_item(turn: &mut TurnView, item: ItemView) -> (r: ItemView)
    ensures
        final(turn).items@ == item_upserted(old(turn).items@, item),
        final(turn).id == old(turn).id,
        final(turn).status == old(turn).status,
        final(turn).error_message == old(turn).error_message,
        r == match first_pos(old(turn).items@, item.id@) {
            Some(k) => merged_item(old(turn).items@[k], item),
            None => item,
        },
{
    match find_first(&turn.items, item.id.as_str()) {
        Some(k) => {
            let ghost s0 = turn.items@;
            let ghost n = item;
            let mut e = turn.items.remove(k);
            let ItemView { id: _, item_type, status, text } = item;
            if status.is_some() {
                e.status = status;
            }
            if text.is_some() {
                e.text = text;
            }
            if item_type.as_str().unicode_len() > 0 {
                e.item_type = item_type;
            }
            assert(e == merged_item(s0[k as int], n));
            let r = e.copy();
            turn.items.insert(k, e);
            assert(turn.items@ =~= s0.update(k as int, e));
            r
        },
        None => {
            let r = item.copy();
            turn.items.push(item);
            r
        },
    }
}

/// A turn merged into the existing one with its id.
pub open spec fn turn_merged(e: TurnView, n: TurnView, m: TurnView) -> bool {
    &&& m.id == e.id
    &&& m.status == (if n.status@.len() > 0 { n.status } else { e.status })
    &&& m.error_message == (if n.error_message is Some { n.error_message } else { e.error_message })
    &&& m.items@ == items_upserted(e.items@, n.items@)
}

/// Whether two turns hold the same contents.
pub open spec fn same_turn(a: TurnView, b: TurnView) -> bool {
    a.id == b.id && a.status == b.status && a.error_message == b.error_message && a.items@ == b.items@
}

/// A thread's turns with a turn upserted: merged into the first with its id, else appended.
pub open spec fn turn_upserted(pre: Seq<TurnView>, post: Seq<TurnView>, n: TurnView) -> bool {
    match first_pos(pre, n.id@) {
        Some(k) => {
            &&& post.len() == pre.len()
            &&& forall|j: int| 0 <= j < pre.len() && j != k ==> #[trigger] post[j] == pre[j]
            &&& turn_merged(pre[k], n, post[k])
        },
        None => post == pre.push(n),
    }
}

/// Upserts a turn into a thread; returns the turn as stored.
pub fn upsert_turn(thread: &mut ThreadView, turn: TurnView) -> (r: TurnView)
    ensures
        turn_upserted(old(thread).turns@, final(thread).turns@, turn),
        final(thread).summary == old(thread).summary,
        match first_pos(old(thread).turns@, turn.id@) {
            Some(k) => same_turn(r, final(thread).turns@[k]),
            None => same_turn(r, turn),
        },
{
    match find_first(&thread.turns, turn.id.as_str()) {
        Some(k) => {
            let ghost s0 = thread.turns@;
            let mut e = thread.turns.remove(k);
            let ghost e0 = e;
            if turn.status.as_str().unicode_len() > 0 {
                e.status = turn.status.clone();
            }
            if turn.error_message.is_some() {
                e.error_message = copy_opt_string(&turn.error_message);
            }
            let mut i: usize = 0;
            while i < turn.items.len()
                invariant
                    i <= turn.items@.len(),
                    e.items@ == items_upserted(e0.items@, turn.items@.take(i as int)),
                    e.id == e0.id,
                    e.status == (if turn.status@.len() > 0 { turn.status } else { e0.status }),
                    e.error_message == (if turn.error_message is Some { turn.error_message } else { e0.error_message }),
                decreases turn.items.len() - i,
            {
                assert(turn.items@.take(i as int + 1).drop_last() =~= turn.items@.take(i as int));
                let _ = upsert_item(&mut e, turn.items[i].copy());
                i = i + 1;
            }
            assert(turn.items@.take(turn.items@.len() as int) =~= turn.items@);
            let r = e.copy();
            thread.turns.insert(k, e);
            assert(thread.turns@ =~= s0.update(k as int, e));
            r
        },
        None => {
            let r = turn.copy();
            thread.turns.push(turn);
            r
        },
    }
}

/// Whether some turn is not over.
pub open spec fn in_flight(turns: Seq<TurnView>) -> bool {
    exists|j: int| 0 <= j < turns.len() && !terminal_status((#[trigger] turns[j]).status@)
}

/// The last non-blank text among items.
pub open spec fn last_text_in(items: Seq<ItemView>) -> Option<Seq<char>>
    decreases items.len(),
{
    if items.len() == 0 {
        None
    } else if items.last().text is Some && !is_blank(items.last().text->0@) {
        Some(items.last().text->0@)
    } else {
        last_text_in(items.drop_last())
    }
}

/// The last non-blank item text of the last turn that has one.
pub open spec fn last_text(turns: Seq<TurnView>) -> Option<Seq<char>>
    decreases turns.len(),
{
    if turns.len() == 0 {
        None
    } else {
        match last_text_in(turns.last().items@) {
            Some(t) => Some(t),
            None => last_text(turns.drop_last()),
        }
    }
}

/// A thread's summary after a refresh from its turns: whether a turn is in flight; the snippet of
/// the latest non-blank output, when there is one; and a recent event if it had none.
pub open spec fn summary_refreshed(pre: ThreadSummary, post: ThreadSummary, turns: Seq<TurnView>) -> bool {
    let flight = in_flight(turns);
    &&& post == ThreadSummary {
        turn_in_flight: flight,
        recent_output: post.recent_output,
        recent_event: post.recent_event,
        ..pre
    }
    &&& match last_text(turns) {
        Some(t) => post.recent_output is Some && post.recent_output->0@ == snippet(t),
        None => post.recent_output == pre.recent_output,
    }
    &&& if pre.recent_event is Some {
        post.recent_event == pre.recent_event
    } else {
        post.recent_event is Some && post.recent_event->0@ == (if flight {
            "turn in progress"@
        } else {
            "thread "@ + pre.status@
        })
    }
}

fn any_in_flight(turns: &Vec<TurnView>) -> (r: bool)
    ensures
        r == in_flight(turns@),
{
    let mut i: usize = 0;
    while i < turns.len()
        invariant
            i <= turns@.len(),
            forall|j: int| 0 <= j < i ==> terminal_status((#[trigger] turns@[j]).status@),
        decreases turns.len() - i,
    {
        if !is_terminal_status(turns[i].status.as_str()) {
            return true;
        }
        i = i + 1;
    }
    false
}

fn last_text_of_items(items: &Vec<ItemView>) -> (r: Option<String>)
    ensures
        match r {
            Some(s) => last_text_in(items@) == Some(s@),
            None => last_text_in(items@) is None,
        },
{
    assert(items@.take(items@.len() as int) =~= items@);
    let mut i: usize = items.len();
    while i > 0
        invariant
            i <= items@.len(),
            last_text_in(items@) == last_text_in(items@.take(i as int)),
        decreases i,
    {
        assert(items@.take(i as int).drop_last() =~= items@.take(i as int - 1));
        match &items[i - 1].text {
            Some(t) => {
                if !str_is_blank(t.as_str()) {
                    return Some(t.clone());
                }
            },
            None => {},
        }
        i = i - 1;
    }
    None
}

fn last_text_of_turns(turns: &Vec<TurnView>) -> (r: Option<String>)
    ensures
        match r {
            Some(s) => last_text(turns@) == Some(s@),
            None => last_text(turns@) is None,
        },
{
    assert(turns@.take(turns@.len() as int) =~= turns@);
    let mut i: usize = turns.len();
    while i > 0
        invariant
            i <= turns@.len(),
            last_text(turns@) == last_text(turns@.take(i as int)),
        decreases i,
    {
        assert(turns@.take(i as int).drop_last() =~= turns@.take(i as int - 1));
        match last_text_of_items(&turns[i - 1].items) {
            Some(t) => {
                return Some(t);
            },
            None => {},
        }
        i = i - 1;
    }
    None
}

/// Refreshes a thread's summary from its turns.
pub fn refresh_thread_summary(thread: &mut ThreadView)
    ensures
        summary_refreshed(old(thread).summary, final(thread).summary, old(thread).turns@),
        final(thread).turns == old(thread).turns,
{
    let flight = any_in_flight(&thread.turns);
    thread.summary.turn_in_flight = flight;
    match last_text_of_turns(&thread.turns) {
        Some(t) => {
            thread.summary.recent_output = Some(truncate_snippet(t.as_str()));
        },
        None => {},
    }
    if thread.summary.recent_event.is_none() {
        thread.summary.recent_event = Some(if flight {
            owned("turn in progress")
        } else {
            cat2("thread ", thread.summary.status.as_str())
        });
    }
}

/// A thread the daemon has heard of but not read yet, created at `now` (seconds).
pub open spec fn is_placeholder(t: ThreadView, thread_id: Seq<char>, now: i64) -> bool {
    &&& t.summary.id@ == thread_id
    &&& t.summary.preview@ == Seq::<char>::empty()
    &&& t.summary.name is None
    &&& t.summary.model_provider@ == Seq::<char>::empty()
    &&& t.summary.cwd@ == Seq::<char>::empty()
    &&& t.summary.status@ == "pending"@
    &&& t.summary.created_at == now
    &&& t.summary.updated_at == now
    &&& t.summary.scope@ == "live_observed"@
    &&& t.summary.recent_output is None
    &&& t.summary.recent_event is None
    &&& !t.summary.turn_in_flight
    &&& t.turns@.len() == 0
}

/// A thread the daemon has heard of but not read yet.
pub fn placeholder_thread_view(thread_id: &str, now: i64) -> (r: ThreadView)
    ensures
        is_placeholder(r, thread_id@, now),
{
    ThreadView {
        summary: ThreadSummary {
            id: owned(thread_id),
            preview: String::new(),
            name: None,
            model_provider: String::new(),
            cwd: String::new(),
            status: owned("pending"),
            created_at: now,
            updated_at: now,
            scope: owned("live_observed"),
            recent_output: None,
            recent_event: None,
            turn_in_flight: false,
        },
        turns: Vec::new(),
    }
}

} // verus!
