use vstd::prelude::*;

use crate::model::{copy_opt_string, TurnLifecycleState};
use crate::text::owned;

verus! {

/// An item of a turn: a message, a command, or other output.
#[derive(Debug)]
pub struct ItemView {
    pub id: String,
    pub item_type: String,
    pub status: Option<String>,
    pub text: Option<String>,
}

/// A turn of a thread and its items.
#[derive(Debug)]
pub struct TurnView {
    pub id: String,
    pub status: String,
    pub error_message: Option<String>,
    pub items: Vec<ItemView>,
}

/// What the daemon shows of a thread.
#[derive(Debug)]
pub struct ThreadSummary {
    pub id: String,
    pub preview: String,
    pub name: Option<String>,
    pub model_provider: String,
    pub cwd: String,
    pub status: String,
    pub created_at: i64,
    pub updated_at: i64,
    pub scope: String,
    pub recent_output: Option<String>,
    pub recent_event: Option<String>,
    pub turn_in_flight: bool,
}

/// A thread with its turns.
#[derive(Debug)]
pub struct ThreadView {
    pub summary: ThreadSummary,
    pub turns: Vec<TurnView>,
}

/// What the daemon knows of a turn's lifecycle (time in milliseconds since the epoch).
#[derive(Debug)]
pub struct TurnStateView {
    pub thread_id: String,
    pub turn_id: String,
    pub lifecycle: TurnLifecycleState,
    pub status: String,
    pub attachable: bool,
    pub live_stream: bool,
    pub terminal: bool,
    pub recent_output: Option<String>,
    pub recent_event: Option<String>,
    pub updated_at: i64,
    pub error_message: Option<String>,
}

/// A turn an operator can attach to.
#[derive(Debug)]
pub struct ActiveTurn {
    pub thread_id: String,
    pub turn_id: String,
    pub status: String,
    pub updated_at: i64,
}

/// The key of the turn registry: a turn of a thread.
#[derive(Debug, PartialEq, Eq, Hash)]
pub struct TurnKey {
    pub thread_id: String,
    pub turn_id: String,
}

impl TurnKey {
    /// The key of a turn of a thread.
    pub fn new(thread_id: &str, turn_id: &str) -> (r: Self)
        ensures
            r.thread_id@ == thread_id@,
            r.turn_id@ == turn_id@,
    {
        TurnKey { thread_id: owned(thread_id), turn_id: owned(turn_id) }
    }
}

/// An optional string as text.
pub open spec fn opt_text(o: Option<String>) -> Option<Seq<char>> {
    match o {
        Some(s) => Some(s@),
        None => None,
    }
}

impl ActiveTurn {
    pub fn copy(&self) -> (r: Self)
        ensures
            r == *self,
    {
        ActiveTurn {
            thread_id: self.thread_id.clone(),
            turn_id: self.turn_id.clone(),
            status: self.status.clone(),
            updated_at: self.updated_at,
        }
    }
}

impl ItemView {
    pub fn copy(&self) -> (r: Self)
        ensures
            r == *self,
    {
        ItemView {
            id: self.id.clone(),
            item_type: self.item_type.clone(),
            status: copy_opt_string(&self.status),
            text: copy_opt_string(&self.text),
        }
    }
}

impl TurnView {
    pub fn copy(&self) -> (r: Self)
        ensures
            r.id == self.id,
            r.status == self.status,
            r.error_message == self.error_message,
            r.items@ == self.items@,
    {
        let mut items: Vec<ItemView> = Vec::new();
        let mut i: usize = 0;
        while i < self.items.len()
            invariant
                i <= self.items@.len(),
                items@ == self.items@.take(i as int),
            decreases self.items.len() - i,
        {
            items.push(self.items[i].copy());
            assert(items@ =~= self.items@.take(i as int + 1));
            i = i + 1;
        }
        assert(items@ =~= self.items@);
        TurnView {
            id: self.id.clone(),
            status: self.status.clone(),
            error_message: copy_opt_string(&self.error_message),
            items,
        }
    }
}

impl ThreadSummary {
    pub fn copy(&self) -> (r: Self)
        ensures
            r == *self,
    {
        ThreadSummary {
            id: self.id.clone(),
            preview: self.preview.clone(),
            name: copy_opt_string(&self.name),
            model_provider: self.model_provider.clone(),
            cwd: self.cwd.clone(),
            status: self.status.clone(),
            created_at: self.created_at,
            updated_at: self.updated_at,
            scope: self.scope.clone(),
            recent_output: copy_opt_string(&self.recent_output),
            recent_event: copy_opt_string(&self.recent_event),
            turn_in_flight: self.turn_in_flight,
        }
    }
}

impl TurnStateView {
    pub fn copy(&self) -> (r: Self)
        ensures
            r == *self,
    {
        TurnStateView {
            thread_id: self.thread_id.clone(),
            turn_id: self.turn_id.clone(),
            lifecycle: self.lifecycle,
            status: self.status.clone(),
            attachable: self.attachable,
            live_stream: self.live_stream,
            terminal: self.terminal,
            recent_output: copy_opt_string(&self.recent_output),
            recent_event: copy_opt_string(&self.recent_event),
            updated_at: self.updated_at,
            error_message: copy_opt_string(&self.error_message),
        }
    }
}

} // verus!
