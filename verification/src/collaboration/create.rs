use vstd::prelude::*;

use super::keyed::{find, get, has, keys_unique, lemma_update_keyed, pos_of, upsert, upserted, Keyed};
use super::status::{deps_satisfied, dependencies_satisfied, workstreams_refreshed};
use super::types::{CollaborationState, WorkUnit, Workstream};
use crate::ids::{new_object_id, object_id};
use crate::model::{copy_strings, OrcasError, OrcasErrorView, WorkUnitStatus, WorkstreamStatus};
use crate::runtime::ranking::{newest_first, sort_newest_first, Ranked};
use crate::text::{cat3, owned, str_eq};

verus! {

impl Ranked for Workstream {
    open spec fn rank_time(&self) -> i64 { self.updated_at }
    open spec fn rank_name(&self) -> Seq<char> { self.id@ }
    fn time(&self) -> (r: i64) { self.updated_at }
    fn name(&self) -> (r: &str) { self.id.as_str() }
}

impl Ranked for WorkUnit {
    open spec fn rank_time(&self) -> i64 { self.updated_at }
    open spec fn rank_name(&self) -> Seq<char> { self.id@ }
    fn time(&self) -> (r: i64) { self.updated_at }
    fn name(&self) -> (r: &str) { self.id.as_str() }
}

/// The first dependency that names no work unit, if any.
pub open spec fn first_unknown(s: Seq<WorkUnit>, deps: Seq<String>) -> Option<int> {
    if exists|k: int| 0 <= k < deps.len() && pos_of(s, (#[trigger] deps[k])@) is None {
        Some(choose|k: int| 0 <= k < deps.len() && pos_of(s, (#[trigger] deps[k])@) is None
            && forall|m: int| 0 <= m < k ==> has(s, (#[trigger] deps[m])@))
    } else {
        None
    }
}

/// Whether a new work unit is as created: in its workstream, ready when its dependencies are
/// completed and blocked otherwise, with no report or assignment yet.
pub open spec fn new_unit_ok(
    w: WorkUnit,
    s: Seq<WorkUnit>,
    workstream_id: Seq<char>,
    title: Seq<char>,
    task_statement: Seq<char>,
    dependencies: Seq<String>,
    now: i64,
    unique: Seq<char>,
) -> bool {
    &&& w.id@ == object_id("wu"@, unique)
    &&& w.workstream_id@ == workstream_id
    &&& w.title@ == title
    &&& w.task_statement@ == task_statement
    &&& w.status == (if deps_satisfied(s, dependencies) { WorkUnitStatus::Ready } else { WorkUnitStatus::Blocked })
    &&& w.dependencies@ == dependencies
    &&& w.latest_report_id is None
    &&& w.current_assignment_id is None
    &&& w.created_at == now
    &&& w.updated_at == now
}

/// The workstreams listed newest first, ids ascending among equals.
pub fn sorted_workstreams(state: &CollaborationState) -> (r: Vec<Workstream>)
    ensures
        r@.to_multiset() == state.workstreams@.to_multiset(),
        newest_first(r@),
{
    let mut all: Vec<Workstream> = Vec::new();
    let mut i: usize = 0;
    while i < state.workstreams.len()
        invariant
            i <= state.workstreams@.len(),
            all@ == state.workstreams@.take(i as int),
        decreases state.workstreams.len() - i,
    {
        all.push(state.workstreams[i].copy());
        assert(all@ =~= state.workstreams@.take(i as int + 1));
        i = i + 1;
    }
    assert(state.workstreams@.take(state.workstreams@.len() as int) =~= state.workstreams@);
    sort_newest_first(all)
}

impl CollaborationState {
    /// Creates an active workstream (priority "normal" unless given) at `now`, with the id
    /// `ws-<unique>`.
    pub fn create_workstream(
        &mut self,
        title: String,
        objective: String,
        priority: Option<String>,
        now: i64,
        unique: &str,
    ) -> (r: Workstream)
        requires
            old(self).wf(),
        ensures
            final(self).wf(),
            r.id@ == object_id("ws"@, unique@),
            r.title == title,
            r.objective == objective,
            r.status == WorkstreamStatus::Active,
            r.priority@ == (if priority is Some { priority->0@ } else { "normal"@ }),
            r.created_at == now,
            r.updated_at == now,
            final(self).workstreams@ == upserted(old(self).workstreams@, r),
            *final(self) == (CollaborationState { workstreams: final(self).workstreams, ..*old(self) }),
    {
        let w = Workstream {
            id: new_object_id("ws", unique),
            title,
            objective,
            status: WorkstreamStatus::Active,
            priority: match priority {
                Some(p) => p,
                None => owned("normal"),
            },
            created_at: now,
            updated_at: now,
        };
        let r = w.copy();
        upsert(&mut self.workstreams, w);
        r
    }

    /// Creates a work unit in a workstream at `now`: the workstream and every dependency must
    /// exist; the unit is ready when its dependencies are completed, blocked otherwise; the
    /// workstream is touched and all workstream statuses recomputed. Returns the unit and its
    /// workstream as they stand. The unit's id is `wu-<unique>`.
    pub fn create_work_unit(
        &mut self,
        workstream_id: &str,
        title: String,
        task_statement: String,
        dependencies: Vec<String>,
        now: i64,
        unique: &str,
    ) -> (r: Result<(WorkUnit, Workstream), OrcasError>)
        requires
            old(self).wf(),
        ensures
            final(self).wf(),
            pos_of(old(self).workstreams@, workstream_id@) is None ==> r is Err
                && r->Err_0@ == OrcasErrorView::Protocol("unknown workstream `"@ + workstream_id@ + "`"@)
                && *final(self) == *old(self),
            has(old(self).workstreams@, workstream_id@) && first_unknown(old(self).work_units@, dependencies@) is Some
                ==> r is Err && r->Err_0@ == OrcasErrorView::Protocol(
                    "unknown dependency work unit `"@ + dependencies@[first_unknown(old(self).work_units@, dependencies@)->0]@ + "`"@,
                ) && *final(self) == *old(self),
            has(old(self).workstreams@, workstream_id@) && first_unknown(old(self).work_units@, dependencies@) is None
                ==> r is Ok && {
                    let (w, ws) = r->Ok_0;
                    let k = pos_of(old(self).workstreams@, workstream_id@)->0;
                    let touched = old(self).workstreams@.update(k, Workstream { updated_at: now, ..old(self).workstreams@[k] });
                    &&& new_unit_ok(w, old(self).work_units@, workstream_id@, title@, task_statement@, dependencies@, now, unique@)
                    &&& exists|stored: WorkUnit| #[trigger] upserted(old(self).work_units@, stored) == final(self).work_units@
                        && super::types::same_work_unit(stored, w)
                    &&& final(self).workstreams@ == workstreams_refreshed(touched, final(self).work_units@, now)
                    &&& ws == final(self).workstreams@[k]
                    &&& *final(self) == (CollaborationState {
                        work_units: final(self).work_units,
                        workstreams: final(self).workstreams,
                        ..*old(self)
                    })
                },
    {
        let k = match find(&self.workstreams, workstream_id) {
            None => {
                return Err(OrcasError::Protocol(cat3("unknown workstream `", workstream_id, "`")));
            },
            Some(k) => k,
        };
        let mut i: usize = 0;
        while i < dependencies.len()
            invariant
                i <= dependencies@.len(),
                keys_unique(self.work_units@),
                *self == *old(self),
                self.wf(),
                pos_of(self.workstreams@, workstream_id@) == Some(k as int),
                k < self.workstreams@.len(),
                forall|m: int| 0 <= m < i ==> has(self.work_units@, (#[trigger] dependencies@[m])@),
            decreases dependencies.len() - i,
        {
            if find(&self.work_units, dependencies[i].as_str()).is_none() {
                proof {
                    let c = choose|x: int| 0 <= x < dependencies@.len() && pos_of(self.work_units@, (#[trigger] dependencies@[x])@) is None
                        && forall|m: int| 0 <= m < x ==> has(self.work_units@, (#[trigger] dependencies@[m])@);
                    assert(0 <= i < dependencies@.len() && pos_of(self.work_units@, dependencies@[i as int]@) is None
                        && forall|m: int| 0 <= m < i ==> has(self.work_units@, (#[trigger] dependencies@[m])@));
                    if c < i {
                        assert(has(self.work_units@, dependencies@[c]@));
                    } else if c > i {
                        assert(has(self.work_units@, dependencies@[i as int]@));
                    }
                }
                return Err(OrcasError::Protocol(cat3("unknown dependency work unit `", dependencies[i].as_str(), "`")));
            }
            i = i + 1;
        }
        proof {
            if exists|x: int| 0 <= x < dependencies@.len() && pos_of(self.work_units@, (#[trigger] dependencies@[x])@) is None {
                let x = choose|x: int| 0 <= x < dependencies@.len() && pos_of(self.work_units@, (#[trigger] dependencies@[x])@) is None;
                assert(has(self.work_units@, dependencies@[x]@));
            }
        }
        let satisfied = dependencies_satisfied(self, &dependencies);
        let w = WorkUnit {
            id: new_object_id("wu", unique),
            workstream_id: owned(workstream_id),
            title,
            task_statement,
            status: if satisfied {
                WorkUnitStatus::Ready
            } else {
                WorkUnitStatus::Blocked
            },
            dependencies,
            latest_report_id: None,
            current_assignment_id: None,
            created_at: now,
            updated_at: now,
        };
        let result = w.copy();
        let ghost gw = w;
        let ghost pre = *self;
        upsert(&mut self.work_units, w);
        let ghost s0 = self.workstreams@;
        let mut ws = self.workstreams[k].copy();
        ws.updated_at = now;
        self.workstreams.set(k, ws);
        proof {
            lemma_update_keyed(s0, k as int, ws);
        }
        let ghost touched = self.workstreams@;
        self.refresh_workstream_statuses(now);
        let workstream = self.workstreams[k].copy();
        proof {
            assert(super::types::same_work_unit(result, gw));
            assert(first_unknown(pre.work_units@, dependencies@) is None);
            assert(pos_of(old(self).workstreams@, workstream_id@)->0 == k as int);
            assert(touched == s0.update(k as int, Workstream { updated_at: now, ..s0[k as int] }));
            assert(upserted(pre.work_units@, gw) == self.work_units@);
        }
        Ok((result, workstream))
    }
}

} // verus!
