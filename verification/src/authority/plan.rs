use vstd::prelude::*;

use super::delete::{cascade_threads, ws_children};
use super::listing::{lemma_tt_list, lemma_tt_listed_len, tt_list, tt_listed};
use super::store::{tt_pos_in, wu_pos_in, ws_pos_in, AuthorityState};
use super::types::{
    AggregateKey, AggregateType, DeletePlan, DeletePlanTarget, DeleteTarget, TrackedThreadRecord,
};

verus! {

/// How long a delete plan stays valid: five minutes, in milliseconds.
pub const DELETE_PLAN_TTL_MILLIS: i64 = 300_000;

/// Whether a live tracked thread in the list holds an upstream thread.
pub open spec fn any_live_binding(l: Seq<TrackedThreadRecord>) -> bool {
    exists|x: int|
        0 <= x < l.len() && (#[trigger] l[x]).upstream_thread_id is Some && l[x].deleted_at is None
}

/// Whether a tracked thread in the list holds an upstream thread.
pub open spec fn any_binding(l: Seq<TrackedThreadRecord>) -> bool {
    exists|x: int| 0 <= x < l.len() && (#[trigger] l[x]).upstream_thread_id is Some
}

/// The plan for deleting a target, made at `now` with a confirmation token; none when the target
/// does not exist.
pub open spec fn delete_plan_for(s: AuthorityState, target: DeleteTarget, now: i64, token: String) -> Option<DeletePlan> {
    match target {
        DeleteTarget::Workstream { workstream_id } => match ws_pos_in(s.workstreams@, workstream_id@) {
            None => None,
            Some(i) => {
                let w = s.workstreams@[i];
                let wl = ws_children(s, workstream_id@);
                let tl = cascade_threads(s.tracked_threads@, wl);
                Some(DeletePlan {
                    target: DeletePlanTarget {
                        aggregate_key: AggregateKey { aggregate_type: AggregateType::Workstream, aggregate_id: workstream_id },
                        label: w.title,
                    },
                    expected_revision: w.revision,
                    affected_work_units: wl.len() as u64,
                    affected_tracked_threads: tl.len() as u64,
                    has_upstream_bindings: any_live_binding(tl),
                    confirmation_token: token,
                    requires_typed_confirmation: wl.len() > 0 || tl.len() > 0,
                    expires_at: (now + DELETE_PLAN_TTL_MILLIS) as i64,
                })
            },
        },
        DeleteTarget::WorkUnit { work_unit_id } => match wu_pos_in(s.work_units@, work_unit_id@) {
            None => None,
            Some(i) => {
                let w = s.work_units@[i];
                let tl = tt_list(s.tracked_threads@, work_unit_id@, false);
                Some(DeletePlan {
                    target: DeletePlanTarget {
                        aggregate_key: AggregateKey { aggregate_type: AggregateType::WorkUnit, aggregate_id: work_unit_id },
                        label: w.title,
                    },
                    expected_revision: w.revision,
                    affected_work_units: 0,
                    affected_tracked_threads: tl.len() as u64,
                    has_upstream_bindings: any_binding(tl),
                    confirmation_token: token,
                    requires_typed_confirmation: tl.len() > 0,
                    expires_at: (now + DELETE_PLAN_TTL_MILLIS) as i64,
                })
            },
        },
        DeleteTarget::TrackedThread { tracked_thread_id } => match tt_pos_in(s.tracked_threads@, tracked_thread_id@) {
            None => None,
            Some(i) => {
                let t = s.tracked_threads@[i];
                Some(DeletePlan {
                    target: DeletePlanTarget {
                        aggregate_key: AggregateKey { aggregate_type: AggregateType::TrackedThread, aggregate_id: tracked_thread_id },
                        label: t.title,
                    },
                    expected_revision: t.revision,
                    affected_work_units: 0,
                    affected_tracked_threads: 0,
                    has_upstream_bindings: t.upstream_thread_id is Some,
                    confirmation_token: token,
                    requires_typed_confirmation: false,
                    expires_at: (now + DELETE_PLAN_TTL_MILLIS) as i64,
                })
            },
        },
    }
}

fn has_live_binding(l: &Vec<TrackedThreadRecord>, live_only: bool) -> (r: bool)
    ensures
        live_only ==> r == any_live_binding(l@),
        !live_only ==> r == any_binding(l@),
{
    let mut x: usize = 0;
    while x < l.len()
        invariant
            x <= l@.len(),
            live_only ==> forall|y: int| 0 <= y < x ==> !((#[trigger] l@[y]).upstream_thread_id is Some && l@[y].deleted_at is None),
            !live_only ==> forall|y: int| 0 <= y < x ==> (#[trigger] l@[y]).upstream_thread_id is None,
        decreases l.len() - x,
    {
        if l[x].upstream_thread_id.is_some() && (!live_only || l[x].deleted_at.is_none()) {
            return true;
        }
        x = x + 1;
    }
    false
}

impl AuthorityState {
    /// The plan for deleting a target at `now`, carrying `token` for the confirmation; `None` when
    /// the target does not exist.
    pub fn delete_plan_at(&self, target: &DeleteTarget, now: i64, token: String) -> (r: Option<DeletePlan>)
        requires
            self.wf(),
            now <= i64::MAX - DELETE_PLAN_TTL_MILLIS,
        ensures
            r == delete_plan_for(*self, *target, now, token),
            match *target {
                DeleteTarget::Workstream { workstream_id } => {
                    &&& (r is Some <==> ws_pos_in(self.workstreams@, workstream_id@) is Some)
                    &&& r is Some ==> {
                        let p = r->0;
                        &&& p.affected_work_units == ws_children(*self, workstream_id@).len()
                        &&& p.affected_tracked_threads == cascade_threads(self.tracked_threads@, ws_children(*self, workstream_id@)).len()
                        &&& (p.requires_typed_confirmation <==> (p.affected_work_units > 0 || p.affected_tracked_threads > 0))
                    }
                },
                DeleteTarget::WorkUnit { work_unit_id } => {
                    &&& (r is Some <==> wu_pos_in(self.work_units@, work_unit_id@) is Some)
                    &&& r is Some ==> {
                        let p = r->0;
                        &&& p.affected_work_units == 0
                        &&& p.affected_tracked_threads == tt_list(self.tracked_threads@, work_unit_id@, false).len()
                        &&& (p.requires_typed_confirmation <==> p.affected_tracked_threads > 0)
                    }
                },
                DeleteTarget::TrackedThread { tracked_thread_id } => {
                    &&& (r is Some <==> tt_pos_in(self.tracked_threads@, tracked_thread_id@) is Some)
                    &&& r is Some ==> {
                        let p = r->0;
                        &&& p.affected_work_units == 0
                        &&& p.affected_tracked_threads == 0
                        &&& !p.requires_typed_confirmation
                    }
                },
            },
    {
        match target {
            DeleteTarget::Workstream { workstream_id } => {
                let i = match self.find_workstream(workstream_id.as_str()) {
                    Some(i) => i,
                    None => { return None; },
                };
                let (units, threads) = self.workstream_descendants(workstream_id.as_str());
                let bound = has_live_binding(&threads, true);
                Some(DeletePlan {
                    target: DeletePlanTarget {
                        aggregate_key: AggregateKey { aggregate_type: AggregateType::Workstream, aggregate_id: workstream_id.clone() },
                        label: self.workstreams[i].title.clone(),
                    },
                    expected_revision: self.workstreams[i].revision,
                    affected_work_units: units.len() as u64,
                    affected_tracked_threads: threads.len() as u64,
                    has_upstream_bindings: bound,
                    confirmation_token: token,
                    requires_typed_confirmation: units.len() > 0 || threads.len() > 0,
                    expires_at: now + DELETE_PLAN_TTL_MILLIS,
                })
            },
            DeleteTarget::WorkUnit { work_unit_id } => {
                let i = match self.find_work_unit(work_unit_id.as_str()) {
                    Some(i) => i,
                    None => { return None; },
                };
                let threads = self.list_tracked_threads(work_unit_id.as_str(), false);
                let bound = has_live_binding(&threads, false);
                Some(DeletePlan {
                    target: DeletePlanTarget {
                        aggregate_key: AggregateKey { aggregate_type: AggregateType::WorkUnit, aggregate_id: work_unit_id.clone() },
                        label: self.work_units[i].title.clone(),
                    },
                    expected_revision: self.work_units[i].revision,
                    affected_work_units: 0,
                    affected_tracked_threads: threads.len() as u64,
                    has_upstream_bindings: bound,
                    confirmation_token: token,
                    requires_typed_confirmation: threads.len() > 0,
                    expires_at: now + DELETE_PLAN_TTL_MILLIS,
                })
            },
            DeleteTarget::TrackedThread { tracked_thread_id } => {
                let i = match self.find_tracked_thread(tracked_thread_id.as_str()) {
                    Some(i) => i,
                    None => { return None; },
                };
                Some(DeletePlan {
                    target: DeletePlanTarget {
                        aggregate_key: AggregateKey { aggregate_type: AggregateType::TrackedThread, aggregate_id: tracked_thread_id.clone() },
                        label: self.tracked_threads[i].title.clone(),
                    },
                    expected_revision: self.tracked_threads[i].revision,
                    affected_work_units: 0,
                    affected_tracked_threads: 0,
                    has_upstream_bindings: self.tracked_threads[i].upstream_thread_id.is_some(),
                    confirmation_token: token,
                    requires_typed_confirmation: false,
                    expires_at: now + DELETE_PLAN_TTL_MILLIS,
                })
            },
        }
    }
}

/// A work unit's delete plan counts exactly the live tracked threads its listing gives, counts no
/// work unit, asks for typed confirmation exactly when that count is positive, reports upstream
/// bindings exactly when a listed thread holds one, and is built against the unit's current
/// revision and title. An unknown work unit has no plan.
pub proof fn lemma_work_unit_plan(s: AuthorityState, work_unit_id: String, now: i64, token: String, threads: Seq<TrackedThreadRecord>)
    requires
        tt_listed(s.tracked_threads@, work_unit_id@, false, threads),
        s.tracked_threads@.len() <= u64::MAX,
        now <= i64::MAX - DELETE_PLAN_TTL_MILLIS,
    ensures
        ({
            let plan = delete_plan_for(s, DeleteTarget::WorkUnit { work_unit_id }, now, token);
            match wu_pos_in(s.work_units@, work_unit_id@) {
                None => plan is None,
                Some(i) => {
                    &&& plan is Some
                    &&& plan->0.affected_work_units == 0
                    &&& plan->0.affected_tracked_threads == threads.len()
                    &&& (plan->0.requires_typed_confirmation <==> plan->0.affected_tracked_threads > 0)
                    &&& (plan->0.has_upstream_bindings <==> exists|k: int| 0 <= k < threads.len() && (#[trigger] threads[k]).upstream_thread_id is Some)
                    &&& plan->0.expected_revision == s.work_units@[i].revision
                    &&& plan->0.target.label == s.work_units@[i].title
                    &&& plan->0.target.aggregate_key.aggregate_id == work_unit_id
                    &&& plan->0.target.aggregate_key.aggregate_type == AggregateType::WorkUnit
                    &&& plan->0.confirmation_token == token
                    &&& plan->0.expires_at == now + DELETE_PLAN_TTL_MILLIS
                },
            }
        }),
{
    lemma_tt_list(s.tracked_threads@, work_unit_id@, false, threads);
    lemma_tt_listed_len(s.tracked_threads@, work_unit_id@, false, threads);
}

/// A tracked thread's delete plan counts nothing, never asks for typed confirmation, and reports
/// an upstream binding exactly when the thread holds one. An unknown thread has no plan.
pub proof fn lemma_tracked_thread_plan(s: AuthorityState, tracked_thread_id: String, now: i64, token: String)
    requires
        now <= i64::MAX - DELETE_PLAN_TTL_MILLIS,
    ensures
        ({
            let plan = delete_plan_for(s, DeleteTarget::TrackedThread { tracked_thread_id }, now, token);
            match tt_pos_in(s.tracked_threads@, tracked_thread_id@) {
                None => plan is None,
                Some(i) => {
                    &&& plan is Some
                    &&& plan->0.affected_work_units == 0
                    &&& plan->0.affected_tracked_threads == 0
                    &&& !plan->0.requires_typed_confirmation
                    &&& (plan->0.has_upstream_bindings <==> s.tracked_threads@[i].upstream_thread_id is Some)
                    &&& plan->0.expected_revision == s.tracked_threads@[i].revision
                    &&& plan->0.target.label == s.tracked_threads@[i].title
                    &&& plan->0.target.aggregate_key.aggregate_id == tracked_thread_id
                    &&& plan->0.target.aggregate_key.aggregate_type == AggregateType::TrackedThread
                    &&& plan->0.confirmation_token == token
                    &&& plan->0.expires_at == now + DELETE_PLAN_TTL_MILLIS
                },
            }
        }),
{
}

/// A workstream's delete plan counts its live work units and their live tracked threads, asks for
/// typed confirmation exactly when either count is positive, and is built against the
/// workstream's current revision and title. An unknown workstream has no plan.
pub proof fn lemma_workstream_plan(s: AuthorityState, workstream_id: String, now: i64, token: String)
    requires
        now <= i64::MAX - DELETE_PLAN_TTL_MILLIS,
        ws_children(s, workstream_id@).len() <= u64::MAX,
        cascade_threads(s.tracked_threads@, ws_children(s, workstream_id@)).len() <= u64::MAX,
    ensures
        ({
            let plan = delete_plan_for(s, DeleteTarget::Workstream { workstream_id }, now, token);
            let units = ws_children(s, workstream_id@);
            let threads = cascade_threads(s.tracked_threads@, units);
            match ws_pos_in(s.workstreams@, workstream_id@) {
                None => plan is None,
                Some(i) => {
                    &&& plan is Some
                    &&& plan->0.affected_work_units == units.len()
                    &&& plan->0.affected_tracked_threads == threads.len()
                    &&& (plan->0.requires_typed_confirmation <==> (plan->0.affected_work_units > 0 || plan->0.affected_tracked_threads > 0))
                    &&& (plan->0.has_upstream_bindings <==> exists|k: int| 0 <= k < threads.len()
                        && (#[trigger] threads[k]).upstream_thread_id is Some && threads[k].deleted_at is None)
                    &&& plan->0.expected_revision == s.workstreams@[i].revision
                    &&& plan->0.target.label == s.workstreams@[i].title
                    &&& plan->0.target.aggregate_key.aggregate_id == workstream_id
                    &&& plan->0.target.aggregate_key.aggregate_type == AggregateType::Workstream
                    &&& plan->0.confirmation_token == token
                    &&& plan->0.expires_at == now + DELETE_PLAN_TTL_MILLIS
                },
            }
        }),
{
}

} // verus!
