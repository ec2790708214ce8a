use vstd::prelude::*;

use super::keyed::{find, get, keys_unique, lemma_pos_of, pos_of, Keyed};
use super::types::{CollaborationState, WorkUnit, Workstream};
use crate::model::{WorkUnitStatus, WorkstreamStatus};
use crate::text::str_eq;

verus! {

/// Whether the work unit with an id exists and is completed.
pub open spec fn dep_done(s: Seq<WorkUnit>, id: Seq<char>) -> bool {
    match get(s, id) {
        Some(w) => w.status == WorkUnitStatus::Completed,
        None => false,
    }
}

/// Whether every dependency exists and is completed.
pub open spec fn deps_satisfied(s: Seq<WorkUnit>, deps: Seq<String>) -> bool {
    forall|k: int| 0 <= k < deps.len() ==> #[trigger] dep_done(s, deps[k]@)
}

/// The statuses that follow their dependencies.
pub open spec fn dependency_driven(st: WorkUnitStatus) -> bool {
    st == WorkUnitStatus::Blocked || st == WorkUnitStatus::Ready || st == WorkUnitStatus::Accepted
}

/// The status a dependency-driven work unit takes: blocked until its dependencies are completed,
/// then ready, or still accepted.
pub open spec fn status_from_dependencies(s: Seq<WorkUnit>, w: WorkUnit) -> WorkUnitStatus {
    if deps_satisfied(s, w.dependencies@) {
        if w.status == WorkUnitStatus::Accepted {
            WorkUnitStatus::Accepted
        } else {
            WorkUnitStatus::Ready
        }
    } else {
        WorkUnitStatus::Blocked
    }
}

/// One work unit after the blocked refresh at `now`.
pub open spec fn unit_refreshed(s: Seq<WorkUnit>, w: WorkUnit, now: i64) -> WorkUnit {
    if dependency_driven(w.status) {
        WorkUnit { status: status_from_dependencies(s, w), updated_at: now, ..w }
    } else {
        w
    }
}

/// The work units after the blocked refresh at `now`.
pub open spec fn blocked_refreshed(s: Seq<WorkUnit>, now: i64) -> Seq<WorkUnit> {
    Seq::new(s.len(), |i: int| unit_refreshed(s, s[i], now))
}

/// Whether a workstream has any work unit.
pub open spec fn has_units(s: Seq<WorkUnit>, id: Seq<char>) -> bool {
    exists|j: int| 0 <= j < s.len() && (#[trigger] s[j]).workstream_id@ == id
}

/// Whether every work unit of a workstream is completed.
pub open spec fn all_completed(s: Seq<WorkUnit>, id: Seq<char>) -> bool {
    forall|j: int| 0 <= j < s.len() && (#[trigger] s[j]).workstream_id@ == id ==> s[j].status == WorkUnitStatus::Completed
}

/// Whether every work unit of a workstream is blocked, waiting for a human, or completed.
pub open spec fn all_settled(s: Seq<WorkUnit>, id: Seq<char>) -> bool {
    forall|j: int|
        0 <= j < s.len() && (#[trigger] s[j]).workstream_id@ == id ==> s[j].status == WorkUnitStatus::Blocked
            || s[j].status == WorkUnitStatus::NeedsHuman || s[j].status == WorkUnitStatus::Completed
}

/// The status a workstream takes from its work units.
pub open spec fn workstream_status_for(s: Seq<WorkUnit>, id: Seq<char>) -> WorkstreamStatus {
    if has_units(s, id) && all_completed(s, id) {
        WorkstreamStatus::Completed
    } else if has_units(s, id) && all_settled(s, id) && !all_completed(s, id) {
        WorkstreamStatus::Blocked
    } else {
        WorkstreamStatus::Active
    }
}

/// The workstreams after their statuses are refreshed at `now`.
pub open spec fn workstreams_refreshed(ws: Seq<Workstream>, units: Seq<WorkUnit>, now: i64) -> Seq<Workstream> {
    Seq::new(
        ws.len(),
        |i: int| Workstream { status: workstream_status_for(units, ws[i].id@), updated_at: now, ..ws[i] },
    )
}

/// Whether every dependency exists and is completed.
pub fn dependencies_satisfied(state: &CollaborationState, dependencies: &Vec<String>) -> (r: bool)
    requires
        keys_unique(state.work_units@),
    ensures
        r == deps_satisfied(state.work_units@, dependencies@),
{
    let mut k: usize = 0;
    while k < dependencies.len()
        invariant
            k <= dependencies@.len(),
            keys_unique(state.work_units@),
            forall|j: int| 0 <= j < k ==> #[trigger] dep_done(state.work_units@, dependencies@[j]@),
        decreases dependencies.len() - k,
    {
        match find(&state.work_units, dependencies[k].as_str()) {
            Some(i) => {
                if state.work_units[i].status != WorkUnitStatus::Completed {
                    assert(!dep_done(state.work_units@, dependencies@[k as int]@));
                    return false;
                }
            },
            None => {
                assert(!dep_done(state.work_units@, dependencies@[k as int]@));
                return false;
            },
        }
        k = k + 1;
    }
    true
}

proof fn lemma_done_preserved(pre: Seq<WorkUnit>, cur: Seq<WorkUnit>)
    requires
        keys_unique(pre),
        pre.len() == cur.len(),
        forall|j: int| 0 <= j < pre.len() ==> (#[trigger] cur[j]).id@ == pre[j].id@,
        forall|j: int|
            0 <= j < pre.len() ==> ((#[trigger] cur[j]).status == WorkUnitStatus::Completed) == (pre[j].status
                == WorkUnitStatus::Completed),
    ensures
        keys_unique(cur),
        forall|id: Seq<char>| #[trigger] dep_done(cur, id) == dep_done(pre, id),
        forall|d: Seq<String>| #[trigger] deps_satisfied(cur, d) == deps_satisfied(pre, d),
{
    assert forall|a: int, b: int|
        #![trigger cur[a], cur[b]]
        0 <= a < cur.len() && 0 <= b < cur.len() && a != b implies cur[a].key() != cur[b].key() by {
        assert(pre[a].key() != pre[b].key());
    }
    assert forall|id: Seq<char>| #[trigger] dep_done(cur, id) == dep_done(pre, id) by {
        if pos_of(pre, id) is Some {
            let p = pos_of(pre, id)->0;
            assert(cur[p].key() == id);
            lemma_pos_of(cur, p);
        } else if pos_of(cur, id) is Some {
            let p = pos_of(cur, id)->0;
            assert(pre[p].key() == id);
        }
    }
    assert forall|d: Seq<String>| #[trigger] deps_satisfied(cur, d) == deps_satisfied(pre, d) by {
        if deps_satisfied(cur, d) {
            assert forall|k: int| 0 <= k < d.len() implies #[trigger] dep_done(pre, d[k]@) by {
                assert(dep_done(cur, d[k]@));
            }
        }
        if deps_satisfied(pre, d) {
            assert forall|k: int| 0 <= k < d.len() implies #[trigger] dep_done(cur, d[k]@) by {
                assert(dep_done(pre, d[k]@));
            }
        }
    }
}

impl CollaborationState {
    /// Moves dependency-driven work units between blocked and ready as their dependencies
    /// complete; accepted units stay accepted unless a dependency is no longer complete.
    pub fn refresh_blocked_work_units(&mut self, now: i64)
        requires
            old(self).wf(),
        ensures
            final(self).wf(),
            final(self).work_units@ == blocked_refreshed(old(self).work_units@, now),
            final(self).workstreams == old(self).workstreams,
            final(self).workers == old(self).workers,
            final(self).worker_sessions == old(self).worker_sessions,
            final(self).assignments == old(self).assignments,
            final(self).reports == old(self).reports,
            final(self).decisions == old(self).decisions,
            final(self).supervisor_proposals == old(self).supervisor_proposals,
            final(self).assignment_communications == old(self).assignment_communications,
    {
        let ghost pre = self.work_units@;
        let mut i: usize = 0;
        while i < self.work_units.len()
            invariant
                i <= self.work_units@.len(),
                self.work_units@.len() == pre.len(),
                keys_unique(pre),
                self.work_units@ =~= Seq::new(pre.len(), |j: int| if j < i { unit_refreshed(pre, pre[j], now) } else { pre[j] }),
                self.wf(),
                self.workstreams == old(self).workstreams,
                self.workers == old(self).workers,
                self.worker_sessions == old(self).worker_sessions,
                self.assignments == old(self).assignments,
                self.reports == old(self).reports,
                self.decisions == old(self).decisions,
                self.supervisor_proposals == old(self).supervisor_proposals,
                self.assignment_communications == old(self).assignment_communications,
                pre == old(self).work_units@,
            decreases self.work_units.len() - i,
        {
            proof {
                lemma_done_preserved(pre, self.work_units@);
            }
            let st = self.work_units[i].status;
            if st == WorkUnitStatus::Blocked || st == WorkUnitStatus::Ready || st == WorkUnitStatus::Accepted {
                let satisfied = dependencies_satisfied(self, &self.work_units[i].dependencies);
                let next = if satisfied {
                    if st == WorkUnitStatus::Accepted {
                        WorkUnitStatus::Accepted
                    } else {
                        WorkUnitStatus::Ready
                    }
                } else {
                    WorkUnitStatus::Blocked
                };
                let ghost s0 = self.work_units@;
                let mut w = self.work_units.remove(i);
                w.status = next;
                w.updated_at = now;
                self.work_units.insert(i, w);
                assert(self.work_units@ =~= s0.update(i as int, w));
                proof {
                    super::keyed::lemma_update_keyed(s0, i as int, w);
                    assert(w == unit_refreshed(pre, pre[i as int], now));
                }
            }
            i = i + 1;
        }
        assert(self.work_units@ =~= blocked_refreshed(pre, now));
    }
}

impl CollaborationState {
    /// Sets each workstream's status from its work units: completed when all are completed,
    /// blocked when all are blocked, waiting for a human or completed (and not all completed),
    /// active otherwise.
    pub fn refresh_workstream_statuses(&mut self, now: i64)
        requires
            old(self).wf(),
        ensures
            final(self).wf(),
            final(self).workstreams@ == workstreams_refreshed(old(self).workstreams@, old(self).work_units@, now),
            final(self).work_units == old(self).work_units,
            final(self).workers == old(self).workers,
            final(self).worker_sessions == old(self).worker_sessions,
            final(self).assignments == old(self).assignments,
            final(self).reports == old(self).reports,
            final(self).decisions == old(self).decisions,
            final(self).supervisor_proposals == old(self).supervisor_proposals,
            final(self).assignment_communications == old(self).assignment_communications,
    {
        let ghost pre = self.workstreams@;
        let mut i: usize = 0;
        while i < self.workstreams.len()
            invariant
                i <= self.workstreams@.len(),
                self.workstreams@.len() == pre.len(),
                self.workstreams@ =~= Seq::new(pre.len(), |j: int| if j < i {
                    Workstream { status: workstream_status_for(self.work_units@, pre[j].id@), updated_at: now, ..pre[j] }
                } else {
                    pre[j]
                }),
                self.wf(),
                keys_unique(pre),
                self.work_units == old(self).work_units,
                self.workers == old(self).workers,
                self.worker_sessions == old(self).worker_sessions,
                self.assignments == old(self).assignments,
                self.reports == old(self).reports,
                self.decisions == old(self).decisions,
                self.supervisor_proposals == old(self).supervisor_proposals,
                self.assignment_communications == old(self).assignment_communications,
                pre == old(self).workstreams@,
            decreases self.workstreams.len() - i,
        {
            let status = self.workstream_status(self.workstreams[i].id.as_str());
            let mut w = self.workstreams[i].copy();
            w.status = status;
            w.updated_at = now;
            let ghost s0 = self.workstreams@;
            self.workstreams.set(i, w);
            proof {
                super::keyed::lemma_update_keyed(s0, i as int, w);
            }
            i = i + 1;
        }
        assert(self.workstreams@ =~= workstreams_refreshed(pre, self.work_units@, now));
    }

    /// The status a workstream takes from its work units.
    pub fn workstream_status(&self, workstream_id: &str) -> (r: WorkstreamStatus)
        ensures
            r == workstream_status_for(self.work_units@, workstream_id@),
    {
        let mut any = false;
        let mut all_done = true;
        let mut all_set = true;
        let mut j: usize = 0;
        while j < self.work_units.len()
            invariant
                j <= self.work_units@.len(),
                any == exists|k: int| 0 <= k < j && (#[trigger] self.work_units@[k]).workstream_id@ == workstream_id@,
                all_done == forall|k: int| 0 <= k < j && (#[trigger] self.work_units@[k]).workstream_id@ == workstream_id@
                    ==> self.work_units@[k].status == WorkUnitStatus::Completed,
                all_set == forall|k: int|
                    0 <= k < j && (#[trigger] self.work_units@[k]).workstream_id@ == workstream_id@
                        ==> self.work_units@[k].status == WorkUnitStatus::Blocked || self.work_units@[k].status
                        == WorkUnitStatus::NeedsHuman || self.work_units@[k].status == WorkUnitStatus::Completed,
            decreases self.work_units.len() - j,
        {
            let u = &self.work_units[j];
            if str_eq(u.workstream_id.as_str(), workstream_id) {
                any = true;
                if u.status != WorkUnitStatus::Completed {
                    all_done = false;
                }
                if !(u.status == WorkUnitStatus::Blocked || u.status == WorkUnitStatus::NeedsHuman
                    || u.status == WorkUnitStatus::Completed) {
                    all_set = false;
                }
            }
            j = j + 1;
        }
        if any && all_done {
            WorkstreamStatus::Completed
        } else if any && all_set && !all_done {
            WorkstreamStatus::Blocked
        } else {
            WorkstreamStatus::Active
        }
    }
}

/// Refreshing blocked work units twice gives the statuses that refreshing once gives: only the
/// update time moves.
pub proof fn lemma_refresh_blocked_idempotent(s: Seq<WorkUnit>, first_at: i64, second_at: i64)
    requires
        keys_unique(s),
    ensures
        ({
            let once = blocked_refreshed(s, first_at);
            let twice = blocked_refreshed(once, second_at);
            &&& twice.len() == once.len()
            &&& forall|i: int| 0 <= i < once.len() ==> (#[trigger] twice[i]).status == once[i].status
            &&& forall|i: int| 0 <= i < once.len() && !dependency_driven(s[i].status) ==> #[trigger] twice[i] == once[i]
        }),
{
    let once = blocked_refreshed(s, first_at);
    assert forall|j: int| 0 <= j < s.len() implies (#[trigger] once[j]).id@ == s[j].id@
        && ((once[j].status == WorkUnitStatus::Completed) == (s[j].status == WorkUnitStatus::Completed)) by {}
    lemma_done_preserved(s, once);
    let twice = blocked_refreshed(once, second_at);
    assert forall|i: int| 0 <= i < once.len() implies (#[trigger] twice[i]).status == once[i].status by {
        assert(deps_satisfied(once, once[i].dependencies@) == deps_satisfied(s, s[i].dependencies@));
    }
}

} // verus!
