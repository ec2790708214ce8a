use vstd::prelude::*;

use super::commands::{
    create_tracked_thread_error, create_work_unit_error, create_workstream_error,
    edit_tracked_thread_error, edit_work_unit_error, edit_workstream_error, edited_tracked_thread,
    edited_work_unit, edited_workstream, new_tracked_thread, new_work_unit, new_workstream,
};
use super::delete::{
    cascade_threads, delete_work_unit_error, delete_workstream_error, deleted_tracked_thread,
    deleted_work_unit, deleted_workstream, tts_deleted_by, ws_children, wu_children, wus_deleted_by,
};
use super::execute::{command_applied, command_error, command_executed, receipt_pos};
use super::rules::{tracked_thread_fields_follow, work_unit_fields_follow, workstream_fields_follow};
use super::listing::{listing, tt_list, tt_listed, tt_rows, wu_listed, wu_rows};
use super::store::{tt_pos_in, ws_pos_in, wu_pos_in, AuthorityState, Tables};
use super::types::{AuthorityCommand, AuthorityMutationResult, TrackedThreadRecord, WorkUnitRecord, WorkstreamRecord};
use crate::model::OrcasError;

verus! {

/// Whether a live workstream has an id.
pub open spec fn live_workstream(s: Seq<WorkstreamRecord>, id: Seq<char>) -> bool {
    exists|p: int| 0 <= p < s.len() && (#[trigger] s[p]).id@ == id && s[p].deleted_at is None
}

/// Whether a live work unit has an id.
pub open spec fn live_work_unit(s: Seq<WorkUnitRecord>, id: Seq<char>) -> bool {
    exists|p: int| 0 <= p < s.len() && (#[trigger] s[p]).id@ == id && s[p].deleted_at is None
}

/// The hierarchy is whole: every live work unit belongs to a live workstream, and every live
/// tracked thread to a live work unit.
pub open spec fn hierarchy_live(t: Tables) -> bool {
    &&& forall|i: int| 0 <= i < t.work_units.len() && (#[trigger] t.work_units[i]).deleted_at is None
        ==> live_workstream(t.workstreams, t.work_units[i].workstream_id@)
    &&& forall|i: int| 0 <= i < t.tracked_threads.len() && (#[trigger] t.tracked_threads[i]).deleted_at is None
        ==> live_work_unit(t.work_units, t.tracked_threads[i].work_unit_id@)
}

proof fn lemma_tt_listed_covers(s: Seq<TrackedThreadRecord>, id: Seq<char>, out: Seq<TrackedThreadRecord>, i: int)
    requires
        tt_listed(s, id, false, out),
        0 <= i < s.len(),
        s[i].deleted_at is None,
        s[i].work_unit_id@ == id,
    ensures
        exists|a: int| 0 <= a < out.len() && out[a] == s[i],
{
    let rows = tt_rows(s, id, false);
    let ps = choose|ps: Seq<usize>| #[trigger] listing(rows, ps) && out.len() == ps.len()
        && forall|a: int| 0 <= a < out.len() ==> #[trigger] out[a] == s[ps[a] as int];
    assert(rows[i].selected);
    let a = choose|a: int| 0 <= a < ps.len() && #[trigger] ps[a] == i;
    assert(out[a] == s[i]);
}

proof fn lemma_wu_listed_covers(s: Seq<WorkUnitRecord>, id: Seq<char>, out: Seq<WorkUnitRecord>, i: int)
    requires
        wu_listed(s, Some(id), false, out),
        0 <= i < s.len(),
        s[i].deleted_at is None,
        s[i].workstream_id@ == id,
    ensures
        exists|a: int| 0 <= a < out.len() && out[a] == s[i],
{
    let rows = wu_rows(s, Some(id), false);
    let ps = choose|ps: Seq<usize>| #[trigger] listing(rows, ps) && out.len() == ps.len()
        && forall|a: int| 0 <= a < out.len() ==> #[trigger] out[a] == s[ps[a] as int];
    assert(rows[i].selected);
    let a = choose|a: int| 0 <= a < ps.len() && #[trigger] ps[a] == i;
    assert(out[a] == s[i]);
}

proof fn lemma_cascade_contains(tt: Seq<TrackedThreadRecord>, wl: Seq<WorkUnitRecord>, q: int, a: int)
    requires
        0 <= q < wl.len(),
        0 <= a < tt_list(tt, wl[q].id@, false).len(),
    ensures
        exists|b: int| 0 <= b < cascade_threads(tt, wl).len() && cascade_threads(tt, wl)[b] == tt_list(tt, wl[q].id@, false)[a],
    decreases wl.len(),
{
    let head = cascade_threads(tt, wl.drop_last());
    assert(cascade_threads(tt, wl) == head + tt_list(tt, wl.last().id@, false));
    if q == wl.len() - 1 {
        let b = head.len() + a;
        assert(cascade_threads(tt, wl)[b] == tt_list(tt, wl[q].id@, false)[a]);
    } else {
        assert(wl.drop_last()[q] == wl[q]);
        lemma_cascade_contains(tt, wl.drop_last(), q, a);
        let b = choose|b: int| 0 <= b < head.len() && head[b] == tt_list(tt, wl[q].id@, false)[a];
        assert(cascade_threads(tt, wl)[b] == head[b]);
    }
}

/// Every accepted authority command keeps the hierarchy whole: a work unit or tracked thread is
/// created only under a live parent, edits keep ids and parents, and a delete takes the live
/// descendants of what it deletes along. Commands refused, or answered from a receipt, change
/// nothing.
pub proof fn lemma_command_keeps_hierarchy(
    pre: AuthorityState,
    post: AuthorityState,
    command: AuthorityCommand,
    recorded_at: i64,
    r: Result<AuthorityMutationResult, OrcasError>,
)
    requires
        pre.wf(),
        hierarchy_live(pre.tables()),
        command_executed(pre, post, command, recorded_at, r),
    ensures
        hierarchy_live(post.tables()),
{
    if receipt_pos(pre.receipts@, command.spec_metadata().command_id@) is Some {
        return;
    }
    if command_error(pre, command) is Some {
        return;
    }
    let q = AuthorityState { receipts: pre.receipts, ..post };
    assert(command_applied(pre, q, command));
    assert(q.tables() == post.tables());
    let t0 = pre.tables();
    let t1 = post.tables();
    match command {
        AuthorityCommand::CreateWorkstream(c) => {
            assert forall|i: int| 0 <= i < t1.work_units.len() && (#[trigger] t1.work_units[i]).deleted_at is None
                implies live_workstream(t1.workstreams, t1.work_units[i].workstream_id@) by {
                let p = choose|p: int| 0 <= p < t0.workstreams.len() && (#[trigger] t0.workstreams[p]).id@ == t0.work_units[i].workstream_id@
                    && t0.workstreams[p].deleted_at is None;
                assert(t1.workstreams[p] == t0.workstreams[p]);
            }
        },
        AuthorityCommand::EditWorkstream(c) => {
            let k = ws_pos_in(t0.workstreams, c.workstream_id@)->0;
            assert forall|i: int| 0 <= i < t1.work_units.len() && (#[trigger] t1.work_units[i]).deleted_at is None
                implies live_workstream(t1.workstreams, t1.work_units[i].workstream_id@) by {
                let p = choose|p: int| 0 <= p < t0.workstreams.len() && (#[trigger] t0.workstreams[p]).id@ == t0.work_units[i].workstream_id@
                    && t0.workstreams[p].deleted_at is None;
                assert(t1.workstreams[p].id@ == t0.workstreams[p].id@ && t1.workstreams[p].deleted_at is None);
            }
        },
        AuthorityCommand::DeleteWorkstream(c) => {
            let k = ws_pos_in(t0.workstreams, c.workstream_id@)->0;
            let wl = ws_children(pre, c.workstream_id@);
            let tl = cascade_threads(t0.tracked_threads, wl);
            assert forall|i: int| 0 <= i < t1.work_units.len() && (#[trigger] t1.work_units[i]).deleted_at is None
                implies live_workstream(t1.workstreams, t1.work_units[i].workstream_id@) by {
                let w = t0.work_units[i];
                assert(!exists|x: int| 0 <= x < wl.len() && (#[trigger] wl[x]).id@ == w.id@);
                assert(t1.work_units[i] == w);
                let p = choose|p: int| 0 <= p < t0.workstreams.len() && (#[trigger] t0.workstreams[p]).id@ == w.workstream_id@
                    && t0.workstreams[p].deleted_at is None;
                if p == k {
                    lemma_wu_listed_covers(t0.work_units, c.workstream_id@, wl, i);
                    let a = choose|a: int| 0 <= a < wl.len() && wl[a] == t0.work_units[i];
                    assert(wl[a].id@ == w.id@);
                }
                assert(t1.workstreams[p] == t0.workstreams[p]);
            }
            assert forall|i: int| 0 <= i < t1.tracked_threads.len() && (#[trigger] t1.tracked_threads[i]).deleted_at is None
                implies live_work_unit(t1.work_units, t1.tracked_threads[i].work_unit_id@) by {
                let t = t0.tracked_threads[i];
                assert(!exists|x: int| 0 <= x < tl.len() && (#[trigger] tl[x]).id@ == t.id@);
                assert(t1.tracked_threads[i] == t);
                let p = choose|p: int| 0 <= p < t0.work_units.len() && (#[trigger] t0.work_units[p]).id@ == t.work_unit_id@
                    && t0.work_units[p].deleted_at is None;
                if exists|x: int| 0 <= x < wl.len() && (#[trigger] wl[x]).id@ == t0.work_units[p].id@ {
                    let x = choose|x: int| 0 <= x < wl.len() && (#[trigger] wl[x]).id@ == t0.work_units[p].id@;
                    assert(tt_listed(t0.tracked_threads, wl[x].id@, false, tt_list(t0.tracked_threads, wl[x].id@, false)));
                    lemma_tt_listed_covers(t0.tracked_threads, wl[x].id@, tt_list(t0.tracked_threads, wl[x].id@, false), i);
                    let a = choose|a: int| 0 <= a < tt_list(t0.tracked_threads, wl[x].id@, false).len()
                        && tt_list(t0.tracked_threads, wl[x].id@, false)[a] == t;
                    lemma_cascade_contains(t0.tracked_threads, wl, x, a);
                    let b = choose|b: int| 0 <= b < tl.len() && tl[b] == tt_list(t0.tracked_threads, wl[x].id@, false)[a];
                    assert(tl[b].id@ == t.id@);
                }
                assert(t1.work_units[p] == t0.work_units[p]);
            }
        },
        AuthorityCommand::CreateWorkUnit(c) => {
            assert forall|i: int| 0 <= i < t1.work_units.len() && (#[trigger] t1.work_units[i]).deleted_at is None
                implies live_workstream(t1.workstreams, t1.work_units[i].workstream_id@) by {
                if i == t0.work_units.len() {
                    let p = ws_pos_in(t0.workstreams, c.workstream_id@)->0;
                    assert(t1.workstreams[p].id@ == c.workstream_id@);
                } else {
                    assert(t1.work_units[i] == t0.work_units[i]);
                }
            }
            assert forall|i: int| 0 <= i < t1.tracked_threads.len() && (#[trigger] t1.tracked_threads[i]).deleted_at is None
                implies live_work_unit(t1.work_units, t1.tracked_threads[i].work_unit_id@) by {
                let p = choose|p: int| 0 <= p < t0.work_units.len() && (#[trigger] t0.work_units[p]).id@ == t0.tracked_threads[i].work_unit_id@
                    && t0.work_units[p].deleted_at is None;
                assert(t1.work_units[p] == t0.work_units[p]);
            }
        },
        AuthorityCommand::EditWorkUnit(c) => {
            let k = wu_pos_in(t0.work_units, c.work_unit_id@)->0;
            assert forall|i: int| 0 <= i < t1.work_units.len() && (#[trigger] t1.work_units[i]).deleted_at is None
                implies live_workstream(t1.workstreams, t1.work_units[i].workstream_id@) by {
                assert(t1.work_units[i].workstream_id == t0.work_units[i].workstream_id);
                assert(t0.work_units[i].deleted_at is None);
            }
            assert forall|i: int| 0 <= i < t1.tracked_threads.len() && (#[trigger] t1.tracked_threads[i]).deleted_at is None
                implies live_work_unit(t1.work_units, t1.tracked_threads[i].work_unit_id@) by {
                let p = choose|p: int| 0 <= p < t0.work_units.len() && (#[trigger] t0.work_units[p]).id@ == t0.tracked_threads[i].work_unit_id@
                    && t0.work_units[p].deleted_at is None;
                assert(t1.work_units[p].id@ == t0.work_units[p].id@ && t1.work_units[p].deleted_at is None);
            }
        },
        AuthorityCommand::DeleteWorkUnit(c) => {
            let k = wu_pos_in(t0.work_units, c.work_unit_id@)->0;
            let children = wu_children(pre, c.work_unit_id@);
            assert forall|i: int| 0 <= i < t1.work_units.len() && (#[trigger] t1.work_units[i]).deleted_at is None
                implies live_workstream(t1.workstreams, t1.work_units[i].workstream_id@) by {
                assert(i != k);
                assert(t1.work_units[i] == t0.work_units[i]);
            }
            assert forall|i: int| 0 <= i < t1.tracked_threads.len() && (#[trigger] t1.tracked_threads[i]).deleted_at is None
                implies live_work_unit(t1.work_units, t1.tracked_threads[i].work_unit_id@) by {
                let t = t0.tracked_threads[i];
                assert(!exists|x: int| 0 <= x < children.len() && (#[trigger] children[x]).id@ == t.id@);
                assert(t1.tracked_threads[i] == t);
                let p = choose|p: int| 0 <= p < t0.work_units.len() && (#[trigger] t0.work_units[p]).id@ == t.work_unit_id@
                    && t0.work_units[p].deleted_at is None;
                if p == k {
                    lemma_tt_listed_covers(t0.tracked_threads, c.work_unit_id@, children, i);
                    let a = choose|a: int| 0 <= a < children.len() && children[a] == t;
                    assert(children[a].id@ == t.id@);
                }
                assert(t1.work_units[p] == t0.work_units[p]);
            }
        },
        AuthorityCommand::CreateTrackedThread(c) => {
            assert forall|i: int| 0 <= i < t1.tracked_threads.len() && (#[trigger] t1.tracked_threads[i]).deleted_at is None
                implies live_work_unit(t1.work_units, t1.tracked_threads[i].work_unit_id@) by {
                if i == t0.tracked_threads.len() {
                    let p = wu_pos_in(t0.work_units, c.work_unit_id@)->0;
                    assert(t1.work_units[p].id@ == c.work_unit_id@);
                } else {
                    assert(t1.tracked_threads[i] == t0.tracked_threads[i]);
                }
            }
        },
        AuthorityCommand::EditTrackedThread(c) => {
            assert forall|i: int| 0 <= i < t1.tracked_threads.len() && (#[trigger] t1.tracked_threads[i]).deleted_at is None
                implies live_work_unit(t1.work_units, t1.tracked_threads[i].work_unit_id@) by {
                assert(t1.tracked_threads[i].work_unit_id == t0.tracked_threads[i].work_unit_id);
                assert(t0.tracked_threads[i].deleted_at is None);
            }
        },
        AuthorityCommand::DeleteTrackedThread(c) => {
            assert forall|i: int| 0 <= i < t1.tracked_threads.len() && (#[trigger] t1.tracked_threads[i]).deleted_at is None
                implies live_work_unit(t1.work_units, t1.tracked_threads[i].work_unit_id@) by {
                assert(t1.tracked_threads[i] == t0.tracked_threads[i]);
            }
        },
    }
}

/// What a read gives back of a write: once a create command is accepted as new (no receipt has
/// its command id yet), reading the created id gives the record the command answered with.
pub proof fn lemma_create_reads_back(
    pre: AuthorityState,
    post: AuthorityState,
    command: AuthorityCommand,
    at: i64,
    r: Result<AuthorityMutationResult, OrcasError>,
)
    requires
        pre.wf(),
        post.wf(),
        command_executed(pre, post, command, at, r),
        r is Ok,
        receipt_pos(pre.receipts@, command.spec_metadata().command_id@) is None,
    ensures
        match command {
            AuthorityCommand::CreateWorkstream(c) => match ws_pos_in(post.workstreams@, c.workstream_id@) {
                Some(i) => r->Ok_0 == AuthorityMutationResult::Workstream(post.workstreams@[i]),
                None => false,
            },
            AuthorityCommand::CreateWorkUnit(c) => match wu_pos_in(post.work_units@, c.work_unit_id@) {
                Some(i) => r->Ok_0 == AuthorityMutationResult::WorkUnit(post.work_units@[i]),
                None => false,
            },
            AuthorityCommand::CreateTrackedThread(c) => match tt_pos_in(post.tracked_threads@, c.tracked_thread_id@) {
                Some(i) => r->Ok_0 == AuthorityMutationResult::TrackedThread(post.tracked_threads@[i]),
                None => false,
            },
            _ => true,
        },
{
    match command {
        AuthorityCommand::CreateWorkstream(c) => {
            let n = pre.workstreams@.len() as int;
            assert(post.workstreams@ == pre.workstreams@.push(new_workstream(c)));
            assert(post.workstreams@[n].id@ == c.workstream_id@);
            let i = ws_pos_in(post.workstreams@, c.workstream_id@)->0;
            if i != n {
                assert(post.workstreams@[i].id@ != post.workstreams@[n].id@);
            }
        },
        AuthorityCommand::CreateWorkUnit(c) => {
            let n = pre.work_units@.len() as int;
            assert(post.work_units@ == pre.work_units@.push(new_work_unit(c)));
            assert(post.work_units@[n].id@ == c.work_unit_id@);
            let i = wu_pos_in(post.work_units@, c.work_unit_id@)->0;
            if i != n {
                assert(post.work_units@[i].id@ != post.work_units@[n].id@);
            }
        },
        AuthorityCommand::CreateTrackedThread(c) => {
            let n = pre.tracked_threads@.len() as int;
            assert(post.tracked_threads@ == pre.tracked_threads@.push(new_tracked_thread(c)));
            assert(post.tracked_threads@[n].id@ == c.tracked_thread_id@);
            let i = tt_pos_in(post.tracked_threads@, c.tracked_thread_id@)->0;
            if i != n {
                assert(post.tracked_threads@[i].id@ != post.tracked_threads@[n].id@);
            }
        },
        _ => {},
    }
}

/// What a read gives back of an edit: once an edit command is accepted as new, the record under
/// its id takes exactly the changes the command asked for (the others and its identity kept) at
/// the next revision and the command's time, and the command answers with that record. The
/// projection is the replay of the log (`wf`), so replaying the edit event gives the same.
pub proof fn lemma_edit_reads_back(
    pre: AuthorityState,
    post: AuthorityState,
    command: AuthorityCommand,
    at: i64,
    r: Result<AuthorityMutationResult, OrcasError>,
)
    requires
        pre.wf(),
        post.wf(),
        command_executed(pre, post, command, at, r),
        r is Ok,
        receipt_pos(pre.receipts@, command.spec_metadata().command_id@) is None,
    ensures
        match command {
            AuthorityCommand::EditWorkstream(c) => match ws_pos_in(pre.workstreams@, c.workstream_id@) {
                Some(i) => {
                    &&& ws_pos_in(post.workstreams@, c.workstream_id@) == Some(i)
                    &&& workstream_fields_follow(pre.workstreams@[i], c.changes, post.workstreams@[i],
                        (pre.workstreams@[i].revision + 1) as u64, c.metadata.issued_at)
                    &&& pre.workstreams@[i].revision == c.expected_revision
                    &&& r->Ok_0 == AuthorityMutationResult::Workstream(post.workstreams@[i])
                },
                None => false,
            },
            AuthorityCommand::EditWorkUnit(c) => match wu_pos_in(pre.work_units@, c.work_unit_id@) {
                Some(i) => {
                    &&& wu_pos_in(post.work_units@, c.work_unit_id@) == Some(i)
                    &&& work_unit_fields_follow(pre.work_units@[i], c.changes, post.work_units@[i],
                        (pre.work_units@[i].revision + 1) as u64, c.metadata.issued_at)
                    &&& pre.work_units@[i].revision == c.expected_revision
                    &&& r->Ok_0 == AuthorityMutationResult::WorkUnit(post.work_units@[i])
                },
                None => false,
            },
            AuthorityCommand::EditTrackedThread(c) => match tt_pos_in(pre.tracked_threads@, c.tracked_thread_id@) {
                Some(i) => {
                    &&& tt_pos_in(post.tracked_threads@, c.tracked_thread_id@) == Some(i)
                    &&& tracked_thread_fields_follow(pre.tracked_threads@[i], c.changes, post.tracked_threads@[i],
                        (pre.tracked_threads@[i].revision + 1) as u64, c.metadata.issued_at)
                    &&& pre.tracked_threads@[i].revision == c.expected_revision
                    &&& r->Ok_0 == AuthorityMutationResult::TrackedThread(post.tracked_threads@[i])
                },
                None => false,
            },
            _ => true,
        },
{
    match command {
        AuthorityCommand::EditWorkstream(c) => {
            let i = ws_pos_in(pre.workstreams@, c.workstream_id@)->0;
            super::rules::lemma_workstream_patch(pre.workstreams@[i], c.changes, (pre.workstreams@[i].revision + 1) as u64, c.metadata.issued_at);
            assert(post.workstreams@ == pre.workstreams@.update(i, edited_workstream(pre, c)));
        },
        AuthorityCommand::EditWorkUnit(c) => {
            let i = wu_pos_in(pre.work_units@, c.work_unit_id@)->0;
            super::rules::lemma_work_unit_patch(pre.work_units@[i], c.changes, (pre.work_units@[i].revision + 1) as u64, c.metadata.issued_at);
            assert(post.work_units@ == pre.work_units@.update(i, edited_work_unit(pre, c)));
        },
        AuthorityCommand::EditTrackedThread(c) => {
            let i = tt_pos_in(pre.tracked_threads@, c.tracked_thread_id@)->0;
            super::rules::lemma_tracked_thread_patch(pre.tracked_threads@[i], c.changes, (pre.tracked_threads@[i].revision + 1) as u64, c.metadata.issued_at);
            assert(post.tracked_threads@ == pre.tracked_threads@.update(i, edited_tracked_thread(pre, c)));
        },
        _ => {},
    }
}

/// Revisions guard every edit and delete: a command whose expected revision is not the target's
/// current one is refused and changes nothing (unless its command id was answered before).
pub proof fn lemma_stale_revision_refused(
    pre: AuthorityState,
    post: AuthorityState,
    command: AuthorityCommand,
    at: i64,
    r: Result<AuthorityMutationResult, OrcasError>,
)
    requires
        command_executed(pre, post, command, at, r),
        receipt_pos(pre.receipts@, command.spec_metadata().command_id@) is None,
        match command {
            AuthorityCommand::EditWorkstream(c) => ws_pos_in(pre.workstreams@, c.workstream_id@) matches Some(i)
                && pre.workstreams@[i].revision != c.expected_revision,
            AuthorityCommand::DeleteWorkstream(c) => ws_pos_in(pre.workstreams@, c.workstream_id@) matches Some(i)
                && pre.workstreams@[i].revision != c.expected_revision,
            AuthorityCommand::EditWorkUnit(c) => wu_pos_in(pre.work_units@, c.work_unit_id@) matches Some(i)
                && pre.work_units@[i].revision != c.expected_revision,
            AuthorityCommand::DeleteWorkUnit(c) => wu_pos_in(pre.work_units@, c.work_unit_id@) matches Some(i)
                && pre.work_units@[i].revision != c.expected_revision,
            AuthorityCommand::EditTrackedThread(c) => tt_pos_in(pre.tracked_threads@, c.tracked_thread_id@) matches Some(i)
                && pre.tracked_threads@[i].revision != c.expected_revision,
            AuthorityCommand::DeleteTrackedThread(c) => tt_pos_in(pre.tracked_threads@, c.tracked_thread_id@) matches Some(i)
                && pre.tracked_threads@[i].revision != c.expected_revision,
            _ => false,
        },
    ensures
        r is Err,
        post == pre,
{
}

/// Commands are idempotent by id: running a command again after it was answered answers the
/// same and changes nothing more.
pub proof fn lemma_command_answered_once(
    pre: AuthorityState,
    mid: AuthorityState,
    post: AuthorityState,
    command: AuthorityCommand,
    at1: i64,
    at2: i64,
    r1: Result<AuthorityMutationResult, OrcasError>,
    r2: Result<AuthorityMutationResult, OrcasError>,
)
    requires
        pre.wf(),
        mid.wf(),
        command_executed(pre, mid, command, at1, r1),
        r1 is Ok,
        command_executed(mid, post, command, at2, r2),
    ensures
        r2 == r1,
        post == mid,
{
    let id = command.spec_metadata().command_id@;
    match receipt_pos(pre.receipts@, id) {
        Some(k) => {},
        None => {
            let n = pre.receipts@.len() as int;
            assert(mid.receipts@[n].command_id@ == id);
            let k = receipt_pos(mid.receipts@, id)->0;
            if k != n {
                assert(mid.receipts@[k].command_id@ != mid.receipts@[n].command_id@);
            }
        },
    }
}

} // verus!
