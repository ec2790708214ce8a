use vstd::prelude::*;

use super::commands::{event_agrees, one_event_appended, room_outcome};
use super::listing::{
    listing, tt_list, tt_listed, tt_rows, tt_selected, wu_list, wu_listed, wu_rows,
};
use super::commands::append_room_error;
use super::rules::{
    deleted_message, ensure_active, ensure_revision, revision_mismatch_message,
    revision_overflow_message, unknown_message,
};
use super::store::{
    log_full_message, tt_deleted, tt_pos_in, tt_unique, ws_deleted, ws_pos_in, wu_deleted,
    wu_pos_in, wu_unique, AuthorityState, Tables,
};
use super::types::{AggregateType, AuthorityEvent, CommandMetadata, DeleteTrackedThread, DeleteWorkUnit, DeleteWorkstream, StoredAuthorityEvent, TrackedThreadRecord, WorkUnitRecord, WorkstreamRecord, MAX_STORED_INTEGER};
use crate::model::{OrcasError, OrcasErrorView};
use crate::text::{cat3, owned};

verus! {

/// The first error a batch of events meets when appended in order to a log of `log_len` events,
/// given the aggregate version each event carries.
pub open spec fn batch_error(log_len: int, versions: Seq<int>) -> Option<OrcasErrorView>
    decreases versions.len(),
{
    if versions.len() == 0 {
        None
    } else if versions[0] > MAX_STORED_INTEGER {
        Some(OrcasErrorView::Store(revision_overflow_message()))
    } else if log_len >= MAX_STORED_INTEGER {
        Some(OrcasErrorView::Store(log_full_message()))
    } else {
        batch_error(log_len + 1, versions.drop_first())
    }
}

proof fn lemma_batch_ok(log_len: int, versions: Seq<int>)
    requires
        batch_error(log_len, versions) is None,
    ensures
        log_len + versions.len() <= MAX_STORED_INTEGER || versions.len() == 0,
        forall|k: int| 0 <= k < versions.len() ==> #[trigger] versions[k] <= MAX_STORED_INTEGER,
    decreases versions.len(),
{
    if versions.len() > 0 {
        lemma_batch_ok(log_len + 1, versions.drop_first());
        assert forall|k: int| 0 <= k < versions.len() implies #[trigger] versions[k] <= MAX_STORED_INTEGER by {
            if k > 0 {
                assert(versions[k] == versions.drop_first()[k - 1]);
            }
        }
    }
}

/// Checks that a batch of events with these versions fits the store.
fn check_batch(log_len: usize, versions: &Vec<u64>) -> (r: Result<(), OrcasError>)
    ensures
        match batch_error(log_len as int, versions@.map_values(|v: u64| v as int)) {
            Some(e) => r is Err && r->Err_0@ == e,
            None => r is Ok,
        },
{
    let ghost vs = versions@.map_values(|v: u64| v as int);
    let mut k: usize = 0;
    assert(vs.skip(0) =~= vs);
    while k < versions.len()
        invariant
            k <= versions@.len(),
            vs == versions@.map_values(|v: u64| v as int),
            batch_error(log_len as int, vs) == batch_error(log_len + k, vs.skip(k as int)),
        decreases versions.len() - k,
    {
        let ghost rest = vs.skip(k as int);
        assert(rest[0] == versions@[k as int] as int);
        if versions[k] > MAX_STORED_INTEGER {
            return Err(OrcasError::Store(owned("store revision overflow: out of range integral type conversion attempted")));
        }
        if log_len as u64 >= MAX_STORED_INTEGER || k as u64 >= MAX_STORED_INTEGER - log_len as u64 {
            return Err(OrcasError::Store(owned("database or disk is full")));
        }
        assert(rest.drop_first() =~= vs.skip(k + 1));
        k = k + 1;
    }
    Ok(())
}

/// A table of tracked threads with every thread named in `l` marked deleted at its next revision.
pub open spec fn tts_deleted_by(s: Seq<TrackedThreadRecord>, l: Seq<TrackedThreadRecord>, at: i64) -> Seq<TrackedThreadRecord> {
    Seq::new(
        s.len(),
        |j: int|
            if exists|q: int| 0 <= q < l.len() && (#[trigger] l[q]).id@ == s[j].id@ {
                tt_deleted(s[j], (s[j].revision + 1) as u64, at)
            } else {
                s[j]
            },
    )
}

/// A table of work units with every unit named in `l` marked deleted at its next revision.
pub open spec fn wus_deleted_by(s: Seq<WorkUnitRecord>, l: Seq<WorkUnitRecord>, at: i64) -> Seq<WorkUnitRecord> {
    Seq::new(
        s.len(),
        |j: int|
            if exists|q: int| 0 <= q < l.len() && (#[trigger] l[q]).id@ == s[j].id@ {
                wu_deleted(s[j], (s[j].revision + 1) as u64, at)
            } else {
                s[j]
            },
    )
}

/// The cascaded deletions of tracked threads are logged, in order, from sequence `first` on.
pub open spec fn tt_deletes_logged(evs: Seq<StoredAuthorityEvent>, first: int, md: CommandMetadata, l: Seq<TrackedThreadRecord>) -> bool {
    &&& evs.len() == l.len()
    &&& forall|q: int|
        0 <= q < l.len() ==> event_agrees(
            #[trigger] evs[q],
            first + q,
            md,
            AggregateType::TrackedThread,
            l[q].id@,
            (l[q].revision + 1) as u64,
            true,
            AuthorityEvent::TrackedThreadDeleted { tracked_thread_id: l[q].id },
        )
}

/// The cascaded deletions of work units are logged, in order, from sequence `first` on.
pub open spec fn wu_deletes_logged(evs: Seq<StoredAuthorityEvent>, first: int, md: CommandMetadata, l: Seq<WorkUnitRecord>) -> bool {
    &&& evs.len() == l.len()
    &&& forall|q: int|
        0 <= q < l.len() ==> event_agrees(
            #[trigger] evs[q],
            first + q,
            md,
            AggregateType::WorkUnit,
            l[q].id@,
            (l[q].revision + 1) as u64,
            true,
            AuthorityEvent::WorkUnitDeleted { work_unit_id: l[q].id },
        )
}

proof fn lemma_tt_pos_same_ids(a: Seq<TrackedThreadRecord>, b: Seq<TrackedThreadRecord>, id: Seq<char>)
    requires
        a.len() == b.len(),
        tt_unique(a),
        forall|j: int| 0 <= j < a.len() ==> (#[trigger] a[j]).id@ == b[j].id@,
    ensures
        tt_pos_in(a, id) == tt_pos_in(b, id),
{
    if tt_pos_in(a, id) is Some {
        let p = tt_pos_in(a, id)->0;
        assert(b[p].id@ == id);
        let p2 = tt_pos_in(b, id)->0;
        if p2 != p {
            assert(a[p2].id@ == id);
        }
    } else {
        if tt_pos_in(b, id) is Some {
            let p2 = tt_pos_in(b, id)->0;
            assert(a[p2].id@ == id);
        }
    }
}

proof fn lemma_wu_pos_same_ids(a: Seq<WorkUnitRecord>, b: Seq<WorkUnitRecord>, id: Seq<char>)
    requires
        a.len() == b.len(),
        wu_unique(a),
        forall|j: int| 0 <= j < a.len() ==> (#[trigger] a[j]).id@ == b[j].id@,
    ensures
        wu_pos_in(a, id) == wu_pos_in(b, id),
{
    if wu_pos_in(a, id) is Some {
        let p = wu_pos_in(a, id)->0;
        assert(b[p].id@ == id);
        let p2 = wu_pos_in(b, id)->0;
        if p2 != p {
            assert(a[p2].id@ == id);
        }
    } else {
        if wu_pos_in(b, id) is Some {
            let p2 = wu_pos_in(b, id)->0;
            assert(a[p2].id@ == id);
        }
    }
}

impl AuthorityState {
    /// Logs and applies the cascaded deletion of tracked threads, in order.
    pub(crate) fn cascade_tracked_threads<F: Fn() -> String>(&mut self, md: &CommandMetadata, l: &Vec<TrackedThreadRecord>, fresh_id: &F)
        requires
            old(self).wf(),
            fresh_id.requires(()),
            forall|q: int|
                0 <= q < l@.len() ==> tt_pos_in(old(self).tracked_threads@, (#[trigger] l@[q]).id@) is Some
                    && old(self).tracked_threads@[tt_pos_in(old(self).tracked_threads@, l@[q].id@)->0] == l@[q],
            forall|q: int| 0 <= q < l@.len() ==> (#[trigger] l@[q]).revision < MAX_STORED_INTEGER,
            old(self).events.len() + l@.len() <= MAX_STORED_INTEGER,
        ensures
            final(self).wf(),
            final(self).workstreams@ == old(self).workstreams@,
            final(self).work_units@ == old(self).work_units@,
            final(self).tracked_threads@ == tts_deleted_by(old(self).tracked_threads@, l@, md.issued_at),
            final(self).events.len() == old(self).events.len() + l@.len(),
            final(self).events@.take(old(self).events.len() as int) == old(self).events@,
            tt_deletes_logged(
                final(self).events@.skip(old(self).events.len() as int),
                old(self).events.len() + 1,
                *md,
                l@,
            ),
            final(self).receipts@ == old(self).receipts@,
    {
        let ghost s0 = self.tracked_threads@;
        let ghost pre = *self;
        let mut a: usize = 0;
        while a < l.len()
            invariant
                a <= l@.len(),
                self.wf(),
                fresh_id.requires(()),
                s0 == pre.tracked_threads@,
                tt_unique(s0),
                self.workstreams@ == pre.workstreams@,
                self.work_units@ == pre.work_units@,
                self.tracked_threads@ == tts_deleted_by(s0, l@.take(a as int), md.issued_at),
                self.events.len() == pre.events.len() + a,
                self.events@.take(pre.events.len() as int) == pre.events@,
                tt_deletes_logged(self.events@.skip(pre.events.len() as int), pre.events.len() + 1, *md, l@.take(a as int)),
                self.receipts@ == pre.receipts@,
                forall|q: int|
                    0 <= q < l@.len() ==> tt_pos_in(s0, (#[trigger] l@[q]).id@) is Some
                        && s0[tt_pos_in(s0, l@[q].id@)->0] == l@[q],
                forall|q: int| 0 <= q < l@.len() ==> (#[trigger] l@[q]).revision < MAX_STORED_INTEGER,
                pre.events.len() + l@.len() <= MAX_STORED_INTEGER,
            decreases l.len() - a,
        {
            let ghost cur = *self;
            let t = &l[a];
            let version = t.revision + 1;
            let ghost id = t.id@;
            let ghost p = tt_pos_in(s0, id)->0;
            proof {
                assert forall|j: int| 0 <= j < s0.len() implies (#[trigger] s0[j]).id@ == cur.tracked_threads@[j].id@ by {}
                lemma_tt_pos_same_ids(s0, cur.tracked_threads@, id);
                assert(s0[p] == l@[a as int]);
            }
            let event = AuthorityEvent::TrackedThreadDeleted { tracked_thread_id: t.id.clone() };
            let ghost ev = event;
            let r = self.push_event(md, AggregateType::TrackedThread, &t.id, version, true, event, fresh_id);
            proof {
                assert(room_outcome(cur, version, md.issued_at, ev) is Ok);
                let na = l@.take(a + 1);
                assert(l@.take(a as int) =~= na.drop_last());
                assert(self.tracked_threads@ =~= tts_deleted_by(s0, na, md.issued_at)) by {
                    assert forall|j: int| 0 <= j < s0.len() implies self.tracked_threads@[j]
                        == tts_deleted_by(s0, na, md.issued_at)[j] by {
                        if j == p {
                            assert(na[a as int].id@ == s0[j].id@);
                        } else {
                            if exists|q: int| 0 <= q < na.len() && (#[trigger] na[q]).id@ == s0[j].id@ {
                                let q = choose|q: int| 0 <= q < na.len() && (#[trigger] na[q]).id@ == s0[j].id@;
                                if q == a {
                                    assert(s0[p].id@ == s0[j].id@);
                                }
                                assert(l@.take(a as int)[q].id@ == s0[j].id@);
                            }
                            if exists|q: int| 0 <= q < a && (#[trigger] l@.take(a as int)[q]).id@ == s0[j].id@ {
                                let q = choose|q: int| 0 <= q < a && (#[trigger] l@.take(a as int)[q]).id@ == s0[j].id@;
                                assert(na[q].id@ == s0[j].id@);
                            }
                        }
                    }
                }
                let sk = self.events@.skip(pre.events.len() as int);
                assert(sk.drop_last() =~= cur.events@.skip(pre.events.len() as int));
                assert(self.events@.take(pre.events.len() as int) =~= cur.events@.take(pre.events.len() as int));
                assert forall|q: int| 0 <= q < na.len() implies event_agrees(
                    #[trigger] sk[q],
                    pre.events.len() + 1 + q,
                    *md,
                    AggregateType::TrackedThread,
                    na[q].id@,
                    (na[q].revision + 1) as u64,
                    true,
                    AuthorityEvent::TrackedThreadDeleted { tracked_thread_id: na[q].id },
                ) by {
                    if q < a {
                        assert(sk[q] == cur.events@.skip(pre.events.len() as int)[q]);
                        assert(na[q] == l@.take(a as int)[q]);
                    } else {
                        assert(sk[q] == self.events@.last());
                    }
                }
            }
            a = a + 1;
        }
        proof {
            assert(l@.take(a as int) =~= l@);
        }
    }

    /// Logs and applies the cascaded deletion of work units, in order.
    pub(crate) fn cascade_work_units<F: Fn() -> String>(&mut self, md: &CommandMetadata, l: &Vec<WorkUnitRecord>, fresh_id: &F)
        requires
            old(self).wf(),
            fresh_id.requires(()),
            forall|q: int|
                0 <= q < l@.len() ==> wu_pos_in(old(self).work_units@, (#[trigger] l@[q]).id@) is Some
                    && old(self).work_units@[wu_pos_in(old(self).work_units@, l@[q].id@)->0] == l@[q],
            forall|q: int| 0 <= q < l@.len() ==> (#[trigger] l@[q]).revision < MAX_STORED_INTEGER,
            old(self).events.len() + l@.len() <= MAX_STORED_INTEGER,
        ensures
            final(self).wf(),
            final(self).workstreams@ == old(self).workstreams@,
            final(self).tracked_threads@ == old(self).tracked_threads@,
            final(self).work_units@ == wus_deleted_by(old(self).work_units@, l@, md.issued_at),
            final(self).events.len() == old(self).events.len() + l@.len(),
            final(self).events@.take(old(self).events.len() as int) == old(self).events@,
            wu_deletes_logged(
                final(self).events@.skip(old(self).events.len() as int),
                old(self).events.len() + 1,
                *md,
                l@,
            ),
            final(self).receipts@ == old(self).receipts@,
    {
        let ghost s0 = self.work_units@;
        let ghost pre = *self;
        let mut a: usize = 0;
        while a < l.len()
            invariant
                a <= l@.len(),
                self.wf(),
                fresh_id.requires(()),
                s0 == pre.work_units@,
                wu_unique(s0),
                self.workstreams@ == pre.workstreams@,
                self.tracked_threads@ == pre.tracked_threads@,
                self.work_units@ == wus_deleted_by(s0, l@.take(a as int), md.issued_at),
                self.events.len() == pre.events.len() + a,
                self.events@.take(pre.events.len() as int) == pre.events@,
                wu_deletes_logged(self.events@.skip(pre.events.len() as int), pre.events.len() + 1, *md, l@.take(a as int)),
                self.receipts@ == pre.receipts@,
                forall|q: int|
                    0 <= q < l@.len() ==> wu_pos_in(s0, (#[trigger] l@[q]).id@) is Some
                        && s0[wu_pos_in(s0, l@[q].id@)->0] == l@[q],
                forall|q: int| 0 <= q < l@.len() ==> (#[trigger] l@[q]).revision < MAX_STORED_INTEGER,
                pre.events.len() + l@.len() <= MAX_STORED_INTEGER,
            decreases l.len() - a,
        {
            let ghost cur = *self;
            let t = &l[a];
            let version = t.revision + 1;
            let ghost id = t.id@;
            let ghost p = wu_pos_in(s0, id)->0;
            proof {
                assert forall|j: int| 0 <= j < s0.len() implies (#[trigger] s0[j]).id@ == cur.work_units@[j].id@ by {}
                lemma_wu_pos_same_ids(s0, cur.work_units@, id);
                assert(s0[p] == l@[a as int]);
            }
            let event = AuthorityEvent::WorkUnitDeleted { work_unit_id: t.id.clone() };
            let ghost ev = event;
            let r = self.push_event(md, AggregateType::WorkUnit, &t.id, version, true, event, fresh_id);
            proof {
                assert(room_outcome(cur, version, md.issued_at, ev) is Ok);
                let na = l@.take(a + 1);
                assert(l@.take(a as int) =~= na.drop_last());
                assert(self.work_units@ =~= wus_deleted_by(s0, na, md.issued_at)) by {
                    assert forall|j: int| 0 <= j < s0.len() implies self.work_units@[j]
                        == wus_deleted_by(s0, na, md.issued_at)[j] by {
                        if j == p {
                            assert(na[a as int].id@ == s0[j].id@);
                        } else {
                            if exists|q: int| 0 <= q < na.len() && (#[trigger] na[q]).id@ == s0[j].id@ {
                                let q = choose|q: int| 0 <= q < na.len() && (#[trigger] na[q]).id@ == s0[j].id@;
                                if q == a {
                                    assert(s0[p].id@ == s0[j].id@);
                                }
                                assert(l@.take(a as int)[q].id@ == s0[j].id@);
                            }
                            if exists|q: int| 0 <= q < a && (#[trigger] l@.take(a as int)[q]).id@ == s0[j].id@ {
                                let q = choose|q: int| 0 <= q < a && (#[trigger] l@.take(a as int)[q]).id@ == s0[j].id@;
                                assert(na[q].id@ == s0[j].id@);
                            }
                        }
                    }
                }
                let sk = self.events@.skip(pre.events.len() as int);
                assert(sk.drop_last() =~= cur.events@.skip(pre.events.len() as int));
                assert(self.events@.take(pre.events.len() as int) =~= cur.events@.take(pre.events.len() as int));
                assert forall|q: int| 0 <= q < na.len() implies event_agrees(
                    #[trigger] sk[q],
                    pre.events.len() + 1 + q,
                    *md,
                    AggregateType::WorkUnit,
                    na[q].id@,
                    (na[q].revision + 1) as u64,
                    true,
                    AuthorityEvent::WorkUnitDeleted { work_unit_id: na[q].id },
                ) by {
                    if q < a {
                        assert(sk[q] == cur.events@.skip(pre.events.len() as int)[q]);
                        assert(na[q] == l@.take(a as int)[q]);
                    } else {
                        assert(sk[q] == self.events@.last());
                    }
                }
            }
            a = a + 1;
        }
        proof {
            assert(l@.take(a as int) =~= l@);
        }
    }
}

/// The next revision of every record in a list.
pub open spec fn tt_versions(l: Seq<TrackedThreadRecord>) -> Seq<int> {
    l.map_values(|t: TrackedThreadRecord| t.revision + 1)
}

pub open spec fn wu_versions(l: Seq<WorkUnitRecord>) -> Seq<int> {
    l.map_values(|w: WorkUnitRecord| w.revision + 1)
}

/// The log of `post` is that of `pre` followed by the root event of a delete command, the
/// cascaded work-unit deletions and the cascaded tracked-thread deletions, in that order; the
/// receipts are untouched.
pub open spec fn cascade_logged(
    pre: AuthorityState,
    post: AuthorityState,
    md: CommandMetadata,
    ty: AggregateType,
    id: Seq<char>,
    version: u64,
    ev: AuthorityEvent,
    wl: Seq<WorkUnitRecord>,
    tl: Seq<TrackedThreadRecord>,
) -> bool {
    let n = pre.events.len() as int;
    &&& post.events.len() == n + 1 + wl.len() + tl.len()
    &&& post.events@.take(n) == pre.events@
    &&& event_agrees(post.events@[n], n + 1, md, ty, id, version, false, ev)
    &&& wu_deletes_logged(post.events@.subrange(n + 1, n + 1 + wl.len()), n + 2, md, wl)
    &&& tt_deletes_logged(post.events@.skip(n + 1 + wl.len()), n + 2 + wl.len(), md, tl)
    &&& post.receipts@ == pre.receipts@
}

/// The tracked thread an accepted delete produces.
pub open spec fn deleted_tracked_thread(s: AuthorityState, c: DeleteTrackedThread) -> TrackedThreadRecord {
    let r = s.tracked_threads@[tt_pos_in(s.tracked_threads@, c.tracked_thread_id@)->0];
    tt_deleted(r, (r.revision + 1) as u64, c.metadata.issued_at)
}
/// The work unit an accepted delete produces.
pub open spec fn deleted_work_unit(s: AuthorityState, c: DeleteWorkUnit) -> WorkUnitRecord {
    let r = s.work_units@[wu_pos_in(s.work_units@, c.work_unit_id@)->0];
    wu_deleted(r, (r.revision + 1) as u64, c.metadata.issued_at)
}
/// The workstream an accepted delete produces.
pub open spec fn deleted_workstream(s: AuthorityState, c: DeleteWorkstream) -> WorkstreamRecord {
    let r = s.workstreams@[ws_pos_in(s.workstreams@, c.workstream_id@)->0];
    ws_deleted(r, (r.revision + 1) as u64, c.metadata.issued_at)
}

/// What an accepted command does to the store: the effect of deleting a tracked thread.
pub open spec fn tracked_thread_deleted(pre: AuthorityState, post: AuthorityState, c: DeleteTrackedThread) -> bool {
    let i = tt_pos_in(pre.tracked_threads@, c.tracked_thread_id@)->0;
    let rec = deleted_tracked_thread(pre, c);
    &&& post.tables() == Tables { tracked_threads: pre.tracked_threads@.update(i, rec), ..pre.tables() }
    &&& one_event_appended(pre, post, c.metadata, AggregateType::TrackedThread, c.tracked_thread_id@, rec.revision, false, AuthorityEvent::TrackedThreadDeleted { tracked_thread_id: c.tracked_thread_id })
}

/// What an accepted command does to the store: the effect of deleting a work unit and its live tracked threads.
pub open spec fn work_unit_deleted(pre: AuthorityState, post: AuthorityState, c: DeleteWorkUnit) -> bool {
    let i = wu_pos_in(pre.work_units@, c.work_unit_id@)->0;
    let rec = deleted_work_unit(pre, c);
    let children = wu_children(pre, c.work_unit_id@);
    &&& post.tables() == Tables {
        work_units: pre.work_units@.update(i, rec),
        tracked_threads: tts_deleted_by(pre.tracked_threads@, children, c.metadata.issued_at),
        ..pre.tables()
    }
    &&& cascade_logged(pre, post, c.metadata, AggregateType::WorkUnit, c.work_unit_id@, rec.revision, AuthorityEvent::WorkUnitDeleted { work_unit_id: c.work_unit_id }, Seq::empty(), children)
    &&& tt_listed(pre.tracked_threads@, c.work_unit_id@, false, children)
}

/// What an accepted command does to the store: the effect of deleting a workstream and its live descendants.
pub open spec fn workstream_deleted(pre: AuthorityState, post: AuthorityState, c: DeleteWorkstream) -> bool {
    let i = ws_pos_in(pre.workstreams@, c.workstream_id@)->0;
    let rec = deleted_workstream(pre, c);
    let wl = ws_children(pre, c.workstream_id@);
    let tl = cascade_threads(pre.tracked_threads@, wl);
    &&& post.tables() == Tables {
        workstreams: pre.workstreams@.update(i, rec),
        work_units: wus_deleted_by(pre.work_units@, wl, c.metadata.issued_at),
        tracked_threads: tts_deleted_by(pre.tracked_threads@, tl, c.metadata.issued_at),
    }
    &&& cascade_logged(pre, post, c.metadata, AggregateType::Workstream, c.workstream_id@, rec.revision, AuthorityEvent::WorkstreamDeleted { workstream_id: c.workstream_id }, wl, tl)
    &&& wu_listed(pre.work_units@, Some(c.workstream_id@), false, wl)
    &&& forall|x: int| 0 <= x < wl.len() ==> tt_listed(
        pre.tracked_threads@, (#[trigger] wl[x]).id@, false, tt_list(pre.tracked_threads@, wl[x].id@, false))
}

/// Why a delete-tracked-thread command is refused, if it is.
pub open spec fn delete_tracked_thread_error(s: AuthorityState, c: DeleteTrackedThread) -> Option<OrcasErrorView> {
    match tt_pos_in(s.tracked_threads@, c.tracked_thread_id@) {
        None => Some(OrcasErrorView::Protocol(unknown_message("tracked thread"@, c.tracked_thread_id@))),
        Some(i) => {
            let r = s.tracked_threads@[i];
            if r.deleted_at is Some {
                Some(OrcasErrorView::Protocol(deleted_message("tracked thread"@, c.tracked_thread_id@)))
            } else if r.revision != c.expected_revision {
                Some(OrcasErrorView::Protocol(revision_mismatch_message("tracked thread"@, c.tracked_thread_id@, c.expected_revision, r.revision)))
            } else {
                append_room_error(s, r.revision)
            }
        },
    }
}

/// The live tracked threads of a work unit, which its deletion takes along.
pub open spec fn wu_children(s: AuthorityState, work_unit_id: Seq<char>) -> Seq<TrackedThreadRecord> {
    tt_list(s.tracked_threads@, work_unit_id, false)
}

/// Why a delete-work-unit command is refused, if it is.
pub open spec fn delete_work_unit_error(s: AuthorityState, c: DeleteWorkUnit) -> Option<OrcasErrorView> {
    match wu_pos_in(s.work_units@, c.work_unit_id@) {
        None => Some(OrcasErrorView::Protocol(unknown_message("work unit"@, c.work_unit_id@))),
        Some(i) => {
            let r = s.work_units@[i];
            if r.deleted_at is Some {
                Some(OrcasErrorView::Protocol(deleted_message("work unit"@, c.work_unit_id@)))
            } else if r.revision != c.expected_revision {
                Some(OrcasErrorView::Protocol(revision_mismatch_message("work unit"@, c.work_unit_id@, c.expected_revision, r.revision)))
            } else {
                batch_error(
                    s.events.len() as int,
                    seq![r.revision + 1] + tt_versions(wu_children(s, c.work_unit_id@)),
                )
            }
        },
    }
}

proof fn lemma_listed_present(s: Seq<TrackedThreadRecord>, id: Seq<char>, l: Seq<TrackedThreadRecord>)
    requires
        tt_unique(s),
        tt_listed(s, id, false, l),
    ensures
        forall|q: int|
            0 <= q < l.len() ==> tt_pos_in(s, (#[trigger] l[q]).id@) is Some
                && s[tt_pos_in(s, l[q].id@)->0] == l[q],
        forall|q: int| 0 <= q < l.len() ==> (#[trigger] l[q]).deleted_at is None && l[q].work_unit_id@ == id,
{
    let rows = tt_rows(s, id, false);
    let ps = choose|ps: Seq<usize>| #[trigger] listing(rows, ps) && l.len() == ps.len()
        && forall|a: int| 0 <= a < l.len() ==> #[trigger] l[a] == s[ps[a] as int];
    assert forall|q: int| 0 <= q < l.len() implies tt_pos_in(s, (#[trigger] l[q]).id@) is Some
        && s[tt_pos_in(s, l[q].id@)->0] == l[q] && l[q].deleted_at is None && l[q].work_unit_id@ == id by {
        let p = ps[q] as int;
        assert(l[q] == s[p]);
        assert(rows[p].selected);
        assert(tt_selected(s[p], id, false));
        let p2 = tt_pos_in(s, l[q].id@)->0;
        if p2 != p {
            assert(s[p2].id@ == s[p].id@);
        }
    }
}

impl AuthorityState {
    /// Deletes a tracked thread at the revision the caller expects.
    pub fn delete_tracked_thread<F: Fn() -> String>(&mut self, c: &DeleteTrackedThread, fresh_id: &F) -> (r: Result<TrackedThreadRecord, OrcasError>)
        requires
            old(self).wf(),
            fresh_id.requires(()),
        ensures
            final(self).wf(),
            match delete_tracked_thread_error(*old(self), *c) {
                Some(e) => r is Err && r->Err_0@ == e && *final(self) == *old(self),
                None => r is Ok && r->Ok_0 == deleted_tracked_thread(*old(self), *c) && tracked_thread_deleted(*old(self), *final(self), *c),
            },
    {
        let i = match self.find_tracked_thread(c.tracked_thread_id.as_str()) {
            Some(i) => i,
            None => {
                return Err(OrcasError::Protocol(cat3("unknown ", "tracked thread", " `").concat(c.tracked_thread_id.as_str()).concat("`")));
            },
        };
        let current = self.tracked_threads[i].copy();
        ensure_active("tracked thread", &current.deleted_at, c.tracked_thread_id.as_str())?;
        ensure_revision("tracked thread", c.tracked_thread_id.as_str(), current.revision, c.expected_revision)?;
        if current.revision >= MAX_STORED_INTEGER {
            return Err(OrcasError::Store(owned("store revision overflow: out of range integral type conversion attempted")));
        }
        let next = current.revision + 1;
        let mut record = current;
        record.deleted_at = Some(c.metadata.issued_at);
        record.updated_at = c.metadata.issued_at;
        record.revision = next;
        let event = AuthorityEvent::TrackedThreadDeleted { tracked_thread_id: c.tracked_thread_id.clone() };
        self.push_event(&c.metadata, AggregateType::TrackedThread, &c.tracked_thread_id, next, false, event, fresh_id)?;
        Ok(record)
    }

    /// Deletes a work unit at the revision the caller expects, and with it its live tracked
    /// threads: one event for the unit, then one cascaded event per thread in listing order. All
    /// of it is applied, or nothing.
    pub fn delete_work_unit<F: Fn() -> String>(&mut self, c: &DeleteWorkUnit, fresh_id: &F) -> (r: Result<WorkUnitRecord, OrcasError>)
        requires
            old(self).wf(),
            fresh_id.requires(()),
        ensures
            final(self).wf(),
            match delete_work_unit_error(*old(self), *c) {
                Some(e) => r is Err && r->Err_0@ == e && *final(self) == *old(self),
                None => r is Ok && r->Ok_0 == deleted_work_unit(*old(self), *c) && work_unit_deleted(*old(self), *final(self), *c),
            },
    {
        let i = match self.find_work_unit(c.work_unit_id.as_str()) {
            Some(i) => i,
            None => {
                return Err(OrcasError::Protocol(cat3("unknown ", "work unit", " `").concat(c.work_unit_id.as_str()).concat("`")));
            },
        };
        let current = self.work_units[i].copy();
        ensure_active("work unit", &current.deleted_at, c.work_unit_id.as_str())?;
        ensure_revision("work unit", c.work_unit_id.as_str(), current.revision, c.expected_revision)?;
        let children = self.list_tracked_threads(c.work_unit_id.as_str(), false);
        proof { lemma_listed_present(self.tracked_threads@, c.work_unit_id@, children@); }
        let mut versions: Vec<u64> = Vec::new();
        versions.push(current.revision + 1);
        let mut q: usize = 0;
        assert(versions@.map_values(|v: u64| v as int) =~= seq![current.revision + 1] + tt_versions(children@.take(0)));
        while q < children.len()
            invariant
                q <= children@.len(),
                versions@.len() == q + 1,
                versions@.map_values(|v: u64| v as int) == seq![current.revision + 1] + tt_versions(children@.take(q as int)),
                forall|x: int| 0 <= x < children@.len() ==> (#[trigger] children@[x]).revision <= MAX_STORED_INTEGER,
            decreases children.len() - q,
        {
            let ghost old_versions = versions@;
            versions.push(children[q].revision + 1);
            proof {
                let rhs = seq![current.revision + 1] + tt_versions(children@.take(q + 1));
                let lhs = versions@.map_values(|v: u64| v as int);
                assert(children@.take(q + 1) =~= children@.take(q as int).push(children@[q as int]));
                assert(versions@ == old_versions.push((children@[q as int].revision + 1) as u64));
                assert(old_versions.len() == q + 1);
                assert forall|k: int| 0 <= k < lhs.len() implies lhs[k] == rhs[k] by {
                    if k < q + 1 {
                        assert(versions@[k] == old_versions[k]);
                        assert(old_versions.map_values(|v: u64| v as int)[k] == old_versions[k] as int);
                    }
                }
                assert(lhs =~= rhs);
            }
            q = q + 1;
        }
        assert(children@.take(q as int) =~= children@);
        check_batch(self.events.len(), &versions)?;
        proof {
            lemma_batch_ok(self.events.len() as int, versions@.map_values(|v: u64| v as int));
        }
        let ghost pre = *self;
        let next = current.revision + 1;
        let mut record = current;
        record.deleted_at = Some(c.metadata.issued_at);
        record.updated_at = c.metadata.issued_at;
        record.revision = next;
        let event = AuthorityEvent::WorkUnitDeleted { work_unit_id: c.work_unit_id.clone() };
        self.push_event(&c.metadata, AggregateType::WorkUnit, &c.work_unit_id, next, false, event, fresh_id)?;
        let ghost mid = *self;
        proof {
            assert forall|x: int| 0 <= x < children@.len() implies (#[trigger] children@[x]).revision < MAX_STORED_INTEGER by {
                assert(versions@.map_values(|v: u64| v as int)[x + 1] == children@[x].revision + 1);
            }
        }
        self.cascade_tracked_threads(&c.metadata, &children, fresh_id);
        proof {
            let n = pre.events.len() as int;
            assert(self.events@.take(n + 1) == mid.events@);
            assert(self.events@.take(n) =~= self.events@.take(n + 1).take(n));
            assert(self.events@.take(n + 1)[n] == self.events@[n]);
            assert(self.events@.take(n) =~= mid.events@.take(n));
            assert(mid.events@.take(n) =~= mid.events@.drop_last());
            assert(self.events@[n] == mid.events@[n]);
            assert(self.events@.subrange(n + 1, n + 1) =~= Seq::<StoredAuthorityEvent>::empty());
            assert(self.events@.skip(n + 1) =~= self.events@.skip(mid.events.len() as int));
        }
        Ok(record)
    }
}

/// The live work units of a workstream, which its deletion takes along.
pub open spec fn ws_children(s: AuthorityState, workstream_id: Seq<char>) -> Seq<WorkUnitRecord> {
    wu_list(s.work_units@, Some(workstream_id), false)
}

/// The live tracked threads of each work unit in `wl`, in turn.
pub open spec fn cascade_threads(tt: Seq<TrackedThreadRecord>, wl: Seq<WorkUnitRecord>) -> Seq<TrackedThreadRecord>
    decreases wl.len(),
{
    if wl.len() == 0 {
        Seq::empty()
    } else {
        cascade_threads(tt, wl.drop_last()) + tt_list(tt, wl.last().id@, false)
    }
}

/// Why a delete-workstream command is refused, if it is.
pub open spec fn delete_workstream_error(s: AuthorityState, c: DeleteWorkstream) -> Option<OrcasErrorView> {
    match ws_pos_in(s.workstreams@, c.workstream_id@) {
        None => Some(OrcasErrorView::Protocol(unknown_message("workstream"@, c.workstream_id@))),
        Some(i) => {
            let r = s.workstreams@[i];
            let wl = ws_children(s, c.workstream_id@);
            if r.deleted_at is Some {
                Some(OrcasErrorView::Protocol(deleted_message("workstream"@, c.workstream_id@)))
            } else if r.revision != c.expected_revision {
                Some(OrcasErrorView::Protocol(revision_mismatch_message("workstream"@, c.workstream_id@, c.expected_revision, r.revision)))
            } else {
                batch_error(
                    s.events.len() as int,
                    seq![r.revision + 1] + wu_versions(wl) + tt_versions(cascade_threads(s.tracked_threads@, wl)),
                )
            }
        },
    }
}

proof fn lemma_wu_listed_present(s: Seq<WorkUnitRecord>, id: Seq<char>, l: Seq<WorkUnitRecord>)
    requires
        wu_unique(s),
        wu_listed(s, Some(id), false, l),
    ensures
        forall|q: int|
            0 <= q < l.len() ==> wu_pos_in(s, (#[trigger] l[q]).id@) is Some
                && s[wu_pos_in(s, l[q].id@)->0] == l[q],
{
    let rows = wu_rows(s, Some(id), false);
    let ps = choose|ps: Seq<usize>| #[trigger] listing(rows, ps) && l.len() == ps.len()
        && forall|a: int| 0 <= a < l.len() ==> #[trigger] l[a] == s[ps[a] as int];
    assert forall|q: int| 0 <= q < l.len() implies wu_pos_in(s, (#[trigger] l[q]).id@) is Some
        && s[wu_pos_in(s, l[q].id@)->0] == l[q] by {
        let p = ps[q] as int;
        assert(l[q] == s[p]);
        assert(rows[p].selected);
        let p2 = wu_pos_in(s, l[q].id@)->0;
        if p2 != p {
            assert(s[p2].id@ == s[p].id@);
        }
    }
}

impl AuthorityState {
    /// The live work units of a workstream, in listing order, and their live tracked threads,
    /// work unit by work unit.
    pub fn workstream_descendants(&self, workstream_id: &str) -> (r: (Vec<WorkUnitRecord>, Vec<TrackedThreadRecord>))
        requires
            self.wf(),
        ensures
            r.0@ == ws_children(*self, workstream_id@),
            r.1@ == cascade_threads(self.tracked_threads@, r.0@),
            wu_listed(self.work_units@, Some(workstream_id@), false, r.0@),
            forall|x: int|
                0 <= x < r.0@.len() ==> tt_listed(
                    self.tracked_threads@,
                    (#[trigger] r.0@[x]).id@,
                    false,
                    tt_list(self.tracked_threads@, r.0@[x].id@, false),
                ),
            forall|q: int|
                0 <= q < r.0@.len() ==> wu_pos_in(self.work_units@, (#[trigger] r.0@[q]).id@) is Some
                    && self.work_units@[wu_pos_in(self.work_units@, r.0@[q].id@)->0] == r.0@[q],
            forall|x: int|
                0 <= x < r.1@.len() ==> tt_pos_in(self.tracked_threads@, (#[trigger] r.1@[x]).id@) is Some
                    && self.tracked_threads@[tt_pos_in(self.tracked_threads@, r.1@[x].id@)->0] == r.1@[x],
    {
        let units = self.list_work_units(Some(workstream_id), false);
        proof { lemma_wu_listed_present(self.work_units@, workstream_id@, units@); }
        let mut threads: Vec<TrackedThreadRecord> = Vec::new();
        let mut q: usize = 0;
        while q < units.len()
            invariant
                q <= units@.len(),
                self.wf(),
                threads@ == cascade_threads(self.tracked_threads@, units@.take(q as int)),
                forall|x: int|
                    0 <= x < q ==> tt_listed(
                        self.tracked_threads@,
                        (#[trigger] units@[x]).id@,
                        false,
                        tt_list(self.tracked_threads@, units@[x].id@, false),
                    ),
                forall|x: int|
                    0 <= x < threads@.len() ==> tt_pos_in(self.tracked_threads@, (#[trigger] threads@[x]).id@) is Some
                        && self.tracked_threads@[tt_pos_in(self.tracked_threads@, threads@[x].id@)->0] == threads@[x],
            decreases units.len() - q,
        {
            let l = self.list_tracked_threads(units[q].id.as_str(), false);
            proof { lemma_listed_present(self.tracked_threads@, units@[q as int].id@, l@); }
            let ghost before = threads@;
            let mut k: usize = 0;
            while k < l.len()
                invariant
                    k <= l@.len(),
                    threads@ == before + l@.take(k as int),
                decreases l.len() - k,
            {
                threads.push(l[k].copy());
                proof { assert(l@.take(k + 1) =~= l@.take(k as int).push(l@[k as int])); }
                k = k + 1;
            }
            proof {
                assert(l@.take(k as int) =~= l@);
                let nt = units@.take(q + 1);
                assert(nt.drop_last() =~= units@.take(q as int));
                assert(threads@ =~= before + l@);
                assert forall|x: int|
                    0 <= x < threads@.len() implies tt_pos_in(self.tracked_threads@, (#[trigger] threads@[x]).id@) is Some
                        && self.tracked_threads@[tt_pos_in(self.tracked_threads@, threads@[x].id@)->0] == threads@[x] by {
                    if x < before.len() {
                        assert(threads@[x] == before[x]);
                    } else {
                        assert(threads@[x] == l@[x - before.len()]);
                    }
                }
            }
            q = q + 1;
        }
        assert(units@.take(q as int) =~= units@);
        (units, threads)
    }
}

impl AuthorityState {
    /// Deletes a workstream at the revision the caller expects, and with it its live work units
    /// and their live tracked threads: one event for the workstream, then one cascaded event per
    /// work unit in listing order, then one per tracked thread, work unit by work unit. All of it
    /// is applied, or nothing.
    pub fn delete_workstream<F: Fn() -> String>(&mut self, c: &DeleteWorkstream, fresh_id: &F) -> (r: Result<WorkstreamRecord, OrcasError>)
        requires
            old(self).wf(),
            fresh_id.requires(()),
        ensures
            final(self).wf(),
            match delete_workstream_error(*old(self), *c) {
                Some(e) => r is Err && r->Err_0@ == e && *final(self) == *old(self),
                None => r is Ok && r->Ok_0 == deleted_workstream(*old(self), *c) && workstream_deleted(*old(self), *final(self), *c),
            },
    {
        let i = match self.find_workstream(c.workstream_id.as_str()) {
            Some(i) => i,
            None => {
                return Err(OrcasError::Protocol(cat3("unknown ", "workstream", " `").concat(c.workstream_id.as_str()).concat("`")));
            },
        };
        let current = self.workstreams[i].copy();
        ensure_active("workstream", &current.deleted_at, c.workstream_id.as_str())?;
        ensure_revision("workstream", c.workstream_id.as_str(), current.revision, c.expected_revision)?;
        let (units, threads) = self.workstream_descendants(c.workstream_id.as_str());
        let mut versions: Vec<u64> = Vec::new();
        versions.push(current.revision + 1);
        let mut a: usize = 0;
        assert(versions@.map_values(|v: u64| v as int) =~= seq![current.revision + 1] + wu_versions(units@.take(0)));
        while a < units.len()
            invariant
                a <= units@.len(),
                versions@.len() == a + 1,
                versions@.map_values(|v: u64| v as int) == seq![current.revision + 1] + wu_versions(units@.take(a as int)),
                forall|x: int| 0 <= x < units@.len() ==> (#[trigger] units@[x]).revision <= MAX_STORED_INTEGER,
            decreases units.len() - a,
        {
            let ghost old_versions = versions@;
            versions.push(units[a].revision + 1);
            proof {
                let rhs = seq![current.revision + 1] + wu_versions(units@.take(a + 1));
                let lhs = versions@.map_values(|v: u64| v as int);
                assert(units@.take(a + 1) =~= units@.take(a as int).push(units@[a as int]));
                assert(versions@ == old_versions.push((units@[a as int].revision + 1) as u64));
                assert forall|k: int| 0 <= k < lhs.len() implies lhs[k] == rhs[k] by {
                    if k < a + 1 {
                        assert(versions@[k] == old_versions[k]);
                        assert(old_versions.map_values(|v: u64| v as int)[k] == old_versions[k] as int);
                    }
                }
                assert(lhs =~= rhs);
            }
            a = a + 1;
        }
        assert(units@.take(a as int) =~= units@);
        let ghost head = versions@.map_values(|v: u64| v as int);
        let mut b: usize = 0;
        assert(versions@.map_values(|v: u64| v as int) =~= head + tt_versions(threads@.take(0)));
        while b < threads.len()
            invariant
                b <= threads@.len(),
                versions@.len() == head.len() + b,
                versions@.map_values(|v: u64| v as int) == head + tt_versions(threads@.take(b as int)),
                forall|x: int| 0 <= x < threads@.len() ==> (#[trigger] threads@[x]).revision <= MAX_STORED_INTEGER,
            decreases threads.len() - b,
        {
            let ghost old_versions = versions@;
            versions.push(threads[b].revision + 1);
            proof {
                let rhs = head + tt_versions(threads@.take(b + 1));
                let lhs = versions@.map_values(|v: u64| v as int);
                assert(threads@.take(b + 1) =~= threads@.take(b as int).push(threads@[b as int]));
                assert(versions@ == old_versions.push((threads@[b as int].revision + 1) as u64));
                assert forall|k: int| 0 <= k < lhs.len() implies lhs[k] == rhs[k] by {
                    if k < head.len() + b {
                        assert(versions@[k] == old_versions[k]);
                        assert(old_versions.map_values(|v: u64| v as int)[k] == old_versions[k] as int);
                    }
                }
                assert(lhs =~= rhs);
            }
            b = b + 1;
        }
        assert(threads@.take(b as int) =~= threads@);
        check_batch(self.events.len(), &versions)?;
        proof {
            lemma_batch_ok(self.events.len() as int, versions@.map_values(|v: u64| v as int));
            let vs = versions@.map_values(|v: u64| v as int);
            assert forall|x: int| 0 <= x < units@.len() implies (#[trigger] units@[x]).revision < MAX_STORED_INTEGER by {
                assert(vs[x + 1] == units@[x].revision + 1);
            }
            assert forall|x: int| 0 <= x < threads@.len() implies (#[trigger] threads@[x]).revision < MAX_STORED_INTEGER by {
                assert(vs[1 + units@.len() + x] == threads@[x].revision + 1);
            }
        }
        let ghost pre = *self;
        let next = current.revision + 1;
        let mut record = current;
        record.deleted_at = Some(c.metadata.issued_at);
        record.updated_at = c.metadata.issued_at;
        record.revision = next;
        let event = AuthorityEvent::WorkstreamDeleted { workstream_id: c.workstream_id.clone() };
        self.push_event(&c.metadata, AggregateType::Workstream, &c.workstream_id, next, false, event, fresh_id)?;
        let ghost mid1 = *self;
        self.cascade_work_units(&c.metadata, &units, fresh_id);
        let ghost mid2 = *self;
        self.cascade_tracked_threads(&c.metadata, &threads, fresh_id);
        proof {
            let n = pre.events.len() as int;
            let m = n + 1 + units@.len();
            assert(self.events@.take(m) == mid2.events@);
            assert(mid2.events@.take(n + 1) == mid1.events@);
            assert(self.events@.take(n + 1) =~= self.events@.take(m).take(n + 1));
            assert(self.events@.take(n) =~= self.events@.take(n + 1).take(n));
            assert(mid1.events@.take(n) =~= mid1.events@.drop_last());
            assert(self.events@.take(n + 1)[n] == self.events@[n]);
            assert(self.events@.subrange(n + 1, m) =~= mid2.events@.skip(n + 1));
        }
        Ok(record)
    }
}

} // verus!
