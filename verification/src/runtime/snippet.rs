use vstd::prelude::*;
use vstd::string::StrSliceExecFns;
use vstd::string::StringExecFns;

use super::types::{ItemView, TurnStateView, TurnView};
use crate::model::TurnLifecycleState;
use crate::text::{char_is_whitespace, is_ws, owned, str_eq};

verus! {

/// The lifecycle a turn status names; any status not named is an active turn.
pub open spec fn lifecycle_of(status: Seq<char>) -> TurnLifecycleState {
    if status == "completed"@ {
        TurnLifecycleState::Completed
    } else if status == "failed"@ {
        TurnLifecycleState::Failed
    } else if status == "cancelled"@ || status == "interrupted"@ {
        TurnLifecycleState::Interrupted
    } else if status == "lost"@ {
        TurnLifecycleState::Lost
    } else if status == "unknown"@ {
        TurnLifecycleState::Unknown
    } else {
        TurnLifecycleState::Active
    }
}

/// The lifecycle a turn status names.
pub fn turn_lifecycle_from_status(status: &str) -> (r: TurnLifecycleState)
    ensures
        r == lifecycle_of(status@),
{
    if str_eq(status, "completed") {
        TurnLifecycleState::Completed
    } else if str_eq(status, "failed") {
        TurnLifecycleState::Failed
    } else if str_eq(status, "cancelled") || str_eq(status, "interrupted") {
        TurnLifecycleState::Interrupted
    } else if str_eq(status, "lost") {
        TurnLifecycleState::Lost
    } else if str_eq(status, "unknown") {
        TurnLifecycleState::Unknown
    } else {
        TurnLifecycleState::Active
    }
}

/// Whether a lifecycle is over: every lifecycle but an active one.
pub fn is_final_turn_lifecycle(lifecycle: TurnLifecycleState) -> (r: bool)
    ensures
        r == (lifecycle != TurnLifecycleState::Active),
{
    !matches!(lifecycle, TurnLifecycleState::Active)
}

/// Whether a turn status is terminal.
pub open spec fn terminal_status(status: Seq<char>) -> bool {
    status == "completed"@ || status == "failed"@ || status == "cancelled"@ || status == "interrupted"@
        || status == "lost"@ || status == "unknown"@
}

/// Whether a turn status is terminal.
pub fn is_terminal_status(status: &str) -> (r: bool)
    ensures
        r == terminal_status(status@),
{
    str_eq(status, "completed") || str_eq(status, "failed") || str_eq(status, "cancelled") || str_eq(status, "interrupted")
        || str_eq(status, "lost") || str_eq(status, "unknown")
}

/// The scope a thread keeps: its own, unless it has none or was only discovered upstream.
pub open spec fn preferred_scope(current: Seq<char>, fallback: Seq<char>) -> Seq<char> {
    if current.len() == 0 || current == "upstream_discovered"@ {
        fallback
    } else {
        current
    }
}

/// The scope a thread keeps.
pub fn prefer_scope(current: &str, fallback: &str) -> (r: String)
    ensures
        r@ == preferred_scope(current@, fallback@),
{
    if current.unicode_len() == 0 || str_eq(current, "upstream_discovered") {
        owned(fallback)
    } else {
        owned(current)
    }
}

/// Why a turn cannot be attached to, by its lifecycle.
pub open spec fn attach_failure(lifecycle: TurnLifecycleState) -> Seq<char> {
    match lifecycle {
        TurnLifecycleState::Completed => "turn already completed; only terminal state is queryable"@,
        TurnLifecycleState::Failed => "turn already failed; only terminal state is queryable"@,
        TurnLifecycleState::Interrupted => "turn was interrupted; live attachment is no longer available"@,
        TurnLifecycleState::Lost => "turn continuity was lost when Orcas lost daemon/upstream ownership"@,
        TurnLifecycleState::Unknown => "turn exists only as cached/query state; live attachment cannot be proven"@,
        TurnLifecycleState::Active => "turn is active but not attachable in this daemon instance"@,
    }
}

/// Why a turn cannot be attached to.
pub fn turn_attach_failure_reason(turn: &TurnStateView) -> (r: String)
    ensures
        r@ == attach_failure(turn.lifecycle),
{
    match turn.lifecycle {
        TurnLifecycleState::Completed => owned("turn already completed; only terminal state is queryable"),
        TurnLifecycleState::Failed => owned("turn already failed; only terminal state is queryable"),
        TurnLifecycleState::Interrupted => owned("turn was interrupted; live attachment is no longer available"),
        TurnLifecycleState::Lost => owned("turn continuity was lost when Orcas lost daemon/upstream ownership"),
        TurnLifecycleState::Unknown => owned("turn exists only as cached/query state; live attachment cannot be proven"),
        TurnLifecycleState::Active => owned("turn is active but not attachable in this daemon instance"),
    }
}

/// Text folded onto one line, left to right: the words (runs of non-whitespace) in order, one
/// space between two words; with whether a space is owed before the next word.
pub open spec fn line_fold(s: Seq<char>) -> (Seq<char>, bool)
    decreases s.len(),
{
    if s.len() == 0 {
        (Seq::empty(), false)
    } else {
        let (out, gap) = line_fold(s.drop_last());
        let c = s.last();
        if is_ws(c) {
            (out, out.len() > 0)
        } else if gap {
            (out + seq![' ', c], false)
        } else {
            (out.push(c), false)
        }
    }
}

/// Text on one line: its words joined by single spaces.
pub open spec fn single_line(s: Seq<char>) -> Seq<char> {
    line_fold(s).0
}

/// The length past which a snippet is cut.
pub const SNIPPET_CHARS: usize = 160;

/// A snippet of text: on one line, and cut to 160 characters with "..." when longer.
pub open spec fn snippet(s: Seq<char>) -> Seq<char> {
    let line = single_line(s);
    if line.len() > SNIPPET_CHARS {
        line.take(SNIPPET_CHARS as int) + "..."@
    } else {
        line
    }
}

/// A snippet of text.
pub fn truncate_snippet(text: &str) -> (r: String)
    ensures
        r@ == snippet(text@),
{
    let n = text.unicode_len();
    let mut out = String::new();
    let mut gap = false;
    let mut count: usize = 0;
    let mut i: usize = 0;
    while i < n
        invariant
            n == text@.len(),
            i <= n,
            (out@, gap) == line_fold(text@.take(i as int)),
            count == out@.len(),
            out@.len() + (if gap { 1int } else { 0int }) <= i,
        decreases n - i,
    {
        assert(text@.take(i as int + 1).drop_last() =~= text@.take(i as int));
        let c = text.get_char(i);
        let piece = text.substring_char(i, i + 1);
        if char_is_whitespace(c) {
            gap = count > 0;
        } else {
            if gap {
                out.append(" ");
                count = count + 1;
            }
            out.append(piece);
            count = count + 1;
            gap = false;
            proof {
                reveal_strlit(" ");
            }
            assert(piece@ =~= seq![c]);
        }
        i = i + 1;
    }
    assert(text@.take(n as int) =~= text@);
    if count > SNIPPET_CHARS {
        let cut = out.as_str().substring_char(0, SNIPPET_CHARS);
        let mut r = owned(cut);
        r.append("...");
        r
    } else {
        out
    }
}

/// The text of a turn's items, in order.
pub open spec fn items_text(items: Seq<ItemView>) -> Seq<char>
    decreases items.len(),
{
    if items.len() == 0 {
        Seq::empty()
    } else {
        items_text(items.drop_last()) + match items.last().text {
            Some(t) => t@,
            None => Seq::empty(),
        }
    }
}

/// A turn's output: a snippet of its items' text, if they have any.
pub open spec fn output_of(items: Seq<ItemView>) -> Option<Seq<char>> {
    let t = items_text(items);
    if t.len() == 0 {
        None
    } else {
        Some(snippet(t))
    }
}

/// A turn's output.
pub fn turn_output(turn: &TurnView) -> (r: Option<String>)
    ensures
        match r {
            Some(s) => output_of(turn.items@) == Some(s@),
            None => output_of(turn.items@) is None,
        },
{
    let mut text = String::new();
    let mut i: usize = 0;
    while i < turn.items.len()
        invariant
            i <= turn.items@.len(),
            text@ == items_text(turn.items@.take(i as int)),
        decreases turn.items.len() - i,
    {
        assert(turn.items@.take(i as int + 1).drop_last() =~= turn.items@.take(i as int));
        match &turn.items[i].text {
            Some(t) => text.append(t.as_str()),
            None => {},
        }
        i = i + 1;
    }
    assert(turn.items@.take(turn.items@.len() as int) =~= turn.items@);
    if text.as_str().unicode_len() == 0 {
        None
    } else {
        Some(truncate_snippet(text.as_str()))
    }
}

} // verus!
