//! Read queries over the collaboration: records and summaries selected by work unit or
//! workstream and listed by age.

use vstd::prelude::*;

use super::assign::same_assignment;
use super::keyed::{find, pos_of};
use super::proposals::stale_refreshed;
use super::summary::{any_with_status, decision_type_of, newest, proposal_decision_type, WorkUnitProposalSummary};
use super::types::{
    same_report, same_work_unit, Assignment, AssignmentStatus, CollaborationState, Decision, DecisionType, Report,
    SupervisorProposalFailureStage, SupervisorProposalRecord, SupervisorProposalStatus, WorkUnit, Worker,
    WorkerSession, Workstream,
};
use crate::assignment_comm::{ReportConfidence, ReportDisposition, ReportParseResult};
use crate::model::{copy_opt_string, OrcasError, OrcasErrorView, WorkUnitStatus, WorkstreamStatus};
use crate::runtime::ranking::{listed_by_age, sort_by_age, Ranked};
use crate::text::{cat3, str_eq};

verus! {

impl Ranked for Assignment {
    open spec fn rank_time(&self) -> i64 { self.created_at }
    open spec fn rank_name(&self) -> Seq<char> { self.id@ }
    fn time(&self) -> (r: i64) { self.created_at }
    fn name(&self) -> (r: &str) { self.id.as_str() }
}

impl Ranked for Report {
    open spec fn rank_time(&self) -> i64 { self.created_at }
    open spec fn rank_name(&self) -> Seq<char> { self.id@ }
    fn time(&self) -> (r: i64) { self.created_at }
    fn name(&self) -> (r: &str) { self.id.as_str() }
}

impl Ranked for Decision {
    open spec fn rank_time(&self) -> i64 { self.created_at }
    open spec fn rank_name(&self) -> Seq<char> { self.id@ }
    fn time(&self) -> (r: i64) { self.created_at }
    fn name(&self) -> (r: &str) { self.id.as_str() }
}

impl Ranked for SupervisorProposalRecord {
    open spec fn rank_time(&self) -> i64 { self.created_at }
    open spec fn rank_name(&self) -> Seq<char> { self.id@ }
    fn time(&self) -> (r: i64) { self.created_at }
    fn name(&self) -> (r: &str) { self.id.as_str() }
}

/// A filter key as text.
pub open spec fn key_of(key: Option<&str>) -> Option<Seq<char>> {
    match key {
        Some(k) => Some(k@),
        None => None,
    }
}

/// A record that listings select by a key and hand out as copies.
pub trait Listed: Ranked + Sized {
    /// Whether the record is listed under a key: the work unit or workstream it belongs to, or,
    /// with no key, whether it is listed at all.
    spec fn under(&self, key: Option<Seq<char>>) -> bool;

    fn is_under(&self, key: Option<&str>) -> (r: bool)
        ensures
            r == self.under(key_of(key));

    /// Whether the record holds the same contents as `other`.
    spec fn same_as(&self, other: Self) -> bool;

    fn dup(&self) -> (r: Self)
        ensures
            r.same_as(*self);
}

impl Listed for Workstream {
    open spec fn under(&self, key: Option<Seq<char>>) -> bool { true }
    fn is_under(&self, key: Option<&str>) -> (r: bool) { true }
    open spec fn same_as(&self, other: Self) -> bool { *self == other }
    fn dup(&self) -> (r: Self) { self.copy() }
}

impl Listed for WorkUnit {
    open spec fn under(&self, key: Option<Seq<char>>) -> bool {
        match key {
            Some(k) => self.workstream_id@ == k,
            None => true,
        }
    }

    fn is_under(&self, key: Option<&str>) -> (r: bool) {
        match key {
            Some(k) => str_eq(self.workstream_id.as_str(), k),
            None => true,
        }
    }

    open spec fn same_as(&self, other: Self) -> bool { same_work_unit(*self, other) }

    fn dup(&self) -> (r: Self) { self.copy() }
}

impl Listed for Assignment {
    /// Under a work unit: its assignments; with no key: those not closed.
    open spec fn under(&self, key: Option<Seq<char>>) -> bool {
        match key {
            Some(k) => self.work_unit_id@ == k,
            None => self.status != AssignmentStatus::Closed,
        }
    }

    fn is_under(&self, key: Option<&str>) -> (r: bool) {
        match key {
            Some(k) => str_eq(self.work_unit_id.as_str(), k),
            None => self.status != AssignmentStatus::Closed,
        }
    }

    open spec fn same_as(&self, other: Self) -> bool { same_assignment(*self, other) }

    fn dup(&self) -> (r: Self) { self.copy() }
}

impl Listed for Report {
    open spec fn under(&self, key: Option<Seq<char>>) -> bool {
        match key {
            Some(k) => self.work_unit_id@ == k,
            None => true,
        }
    }

    fn is_under(&self, key: Option<&str>) -> (r: bool) {
        match key {
            Some(k) => str_eq(self.work_unit_id.as_str(), k),
            None => true,
        }
    }

    open spec fn same_as(&self, other: Self) -> bool { same_report(*self, other) }

    fn dup(&self) -> (r: Self) { self.copy() }
}

impl Listed for Decision {
    open spec fn under(&self, key: Option<Seq<char>>) -> bool {
        match key {
            Some(k) => self.work_unit_id@ == k,
            None => true,
        }
    }

    fn is_under(&self, key: Option<&str>) -> (r: bool) {
        match key {
            Some(k) => str_eq(self.work_unit_id.as_str(), k),
            None => true,
        }
    }

    open spec fn same_as(&self, other: Self) -> bool { *self == other }

    fn dup(&self) -> (r: Self) {
        Decision {
            id: self.id.clone(),
            work_unit_id: self.work_unit_id.clone(),
            report_id: copy_opt_string(&self.report_id),
            decision_type: self.decision_type,
            rationale: self.rationale.clone(),
            created_at: self.created_at,
        }
    }
}

impl Listed for SupervisorProposalRecord {
    open spec fn under(&self, key: Option<Seq<char>>) -> bool {
        match key {
            Some(k) => self.primary_work_unit_id@ == k,
            None => true,
        }
    }

    fn is_under(&self, key: Option<&str>) -> (r: bool) {
        match key {
            Some(k) => str_eq(self.primary_work_unit_id.as_str(), k),
            None => true,
        }
    }

    open spec fn same_as(&self, other: Self) -> bool { *self == other }

    fn dup(&self) -> (r: Self) { self.copy() }
}

/// The test a listing under a key applies.
pub open spec fn under_key<T: Listed>(key: Option<Seq<char>>) -> spec_fn(T) -> bool {
    |x: T| x.under(key)
}

/// The records of a table listed under a key, in table order.
pub open spec fn selected<T: Listed>(table: Seq<T>, key: Option<Seq<char>>) -> Seq<T> {
    table.filter(under_key::<T>(key))
}

/// Whether `a` holds copies of `b`, position by position.
pub open spec fn copies<T: Listed>(a: Seq<T>, b: Seq<T>) -> bool {
    &&& a.len() == b.len()
    &&& forall|k: int| 0 <= k < a.len() ==> (#[trigger] a[k]).same_as(b[k])
}

/// Whether `r` lists copies of the records of `table` under `key`, each once, ordered by time
/// (newest or oldest first) and then by id.
pub open spec fn listing<T: Listed>(r: Seq<T>, table: Seq<T>, key: Option<Seq<char>>, newest: bool) -> bool {
    &&& exists|all: Seq<T>| #[trigger] copies(all, selected(table, key)) && r.to_multiset() == all.to_multiset()
    &&& listed_by_age(r, newest)
}

/// Lists copies of the records of a table under a key by age.
pub fn list_records<T: Listed>(v: &Vec<T>, key: Option<&str>, newest: bool) -> (r: Vec<T>)
    ensures
        listing(r@, v@, key_of(key), newest),
{
    let ghost f = under_key::<T>(key_of(key));
    let mut all: Vec<T> = Vec::new();
    let mut i: usize = 0;
    assert(v@.take(0).filter(f) =~= Seq::<T>::empty()) by {
        reveal(Seq::filter);
    }
    while i < v.len()
        invariant
            i <= v@.len(),
            f == under_key::<T>(key_of(key)),
            copies(all@, v@.take(i as int).filter(f)),
        decreases v.len() - i,
    {
        let ghost before = all@;
        assert(v@.take(i as int + 1) =~= v@.take(i as int).push(v@[i as int]));
        proof {
            v@.take(i as int).lemma_filter_push(v@[i as int], f);
        }
        if v[i].is_under(key) {
            let c = v[i].dup();
            all.push(c);
            assert(copies(all@, v@.take(i as int + 1).filter(f))) by {
                assert forall|k: int| 0 <= k < all@.len() implies (#[trigger] all@[k]).same_as(v@.take(i as int + 1).filter(f)[k]) by {
                    if k < before.len() {
                        assert(all@[k] == before[k]);
                    }
                }
            }
        }
        i = i + 1;
    }
    assert(v@.take(v@.len() as int) =~= v@);
    let ghost snapshot = all@;
    let r = sort_by_age(all, newest);
    assert(copies(snapshot, selected(v@, key_of(key))));
    r
}

/// A workstream as listings show it.
#[derive(Debug)]
pub struct WorkstreamSummary {
    pub id: String,
    pub title: String,
    pub objective: String,
    pub status: WorkstreamStatus,
    pub priority: String,
    pub updated_at: i64,
}

/// A work unit as listings show it, with where its proposals stand.
#[derive(Debug)]
pub struct WorkUnitSummary {
    pub id: String,
    pub workstream_id: String,
    pub title: String,
    pub status: WorkUnitStatus,
    pub dependency_count: usize,
    pub current_assignment_id: Option<String>,
    pub latest_report_id: Option<String>,
    pub proposal: Option<WorkUnitProposalSummary>,
    pub updated_at: i64,
}

/// An assignment as listings show it.
#[derive(Debug)]
pub struct AssignmentSummary {
    pub id: String,
    pub work_unit_id: String,
    pub worker_id: String,
    pub worker_session_id: String,
    pub status: AssignmentStatus,
    pub attempt_number: u32,
    pub updated_at: i64,
}

/// A report as listings show it.
#[derive(Debug)]
pub struct ReportSummary {
    pub id: String,
    pub work_unit_id: String,
    pub assignment_id: String,
    pub worker_id: String,
    pub disposition: ReportDisposition,
    pub summary: String,
    pub confidence: ReportConfidence,
    pub parse_result: ReportParseResult,
    pub needs_supervisor_review: bool,
    pub created_at: i64,
}

/// A decision as listings show it.
#[derive(Debug)]
pub struct DecisionSummary {
    pub id: String,
    pub work_unit_id: String,
    pub report_id: Option<String>,
    pub decision_type: DecisionType,
    pub rationale: String,
    pub created_at: i64,
}

/// A supervisor proposal as listings show it.
#[derive(Debug)]
pub struct ProposalSummary {
    pub id: String,
    pub primary_work_unit_id: String,
    pub source_report_id: String,
    pub status: SupervisorProposalStatus,
    pub proposed_decision_type: Option<DecisionType>,
    pub created_at: i64,
    pub reviewed_at: Option<i64>,
    pub has_approval_edits: bool,
    pub generation_failure_stage: Option<SupervisorProposalFailureStage>,
    pub reasoner_model: String,
}

impl Ranked for WorkstreamSummary {
    open spec fn rank_time(&self) -> i64 { self.updated_at }
    open spec fn rank_name(&self) -> Seq<char> { self.id@ }
    fn time(&self) -> (r: i64) { self.updated_at }
    fn name(&self) -> (r: &str) { self.id.as_str() }
}

impl Ranked for WorkUnitSummary {
    open spec fn rank_time(&self) -> i64 { self.updated_at }
    open spec fn rank_name(&self) -> Seq<char> { self.id@ }
    fn time(&self) -> (r: i64) { self.updated_at }
    fn name(&self) -> (r: &str) { self.id.as_str() }
}

impl Ranked for AssignmentSummary {
    open spec fn rank_time(&self) -> i64 { self.updated_at }
    open spec fn rank_name(&self) -> Seq<char> { self.id@ }
    fn time(&self) -> (r: i64) { self.updated_at }
    fn name(&self) -> (r: &str) { self.id.as_str() }
}

impl Ranked for ReportSummary {
    open spec fn rank_time(&self) -> i64 { self.created_at }
    open spec fn rank_name(&self) -> Seq<char> { self.id@ }
    fn time(&self) -> (r: i64) { self.created_at }
    fn name(&self) -> (r: &str) { self.id.as_str() }
}

impl Ranked for DecisionSummary {
    open spec fn rank_time(&self) -> i64 { self.created_at }
    open spec fn rank_name(&self) -> Seq<char> { self.id@ }
    fn time(&self) -> (r: i64) { self.created_at }
    fn name(&self) -> (r: &str) { self.id.as_str() }
}

impl Ranked for ProposalSummary {
    open spec fn rank_time(&self) -> i64 { self.created_at }
    open spec fn rank_name(&self) -> Seq<char> { self.id@ }
    fn time(&self) -> (r: i64) { self.created_at }
    fn name(&self) -> (r: &str) { self.id.as_str() }
}

/// Where a work unit's proposals stand: its newest proposal and its newest open one, and
/// whether any failed to generate or went stale or was superseded; `None` when it has none.
pub open spec fn proposal_summary_of(ps: Seq<SupervisorProposalRecord>, work_unit_id: Seq<char>) -> Option<
    WorkUnitProposalSummary,
> {
    match newest(ps, work_unit_id, false) {
        None => None,
        Some(b) => {
            let latest = ps[b];
            let open = newest(ps, work_unit_id, true);
            Some(
                WorkUnitProposalSummary {
                    latest_proposal_id: latest.id,
                    latest_status: latest.status,
                    latest_proposed_decision_type: decision_type_of(latest),
                    latest_created_at: latest.created_at,
                    latest_reviewed_at: latest.reviewed_at,
                    latest_has_approval_edits: latest.has_approval_edits,
                    latest_failure_stage: if latest.generation_failure is Some {
                        Some(latest.generation_failure->0.stage)
                    } else {
                        None
                    },
                    has_open_proposal: open is Some,
                    open_proposal_id: match open {
                        Some(o) => Some(ps[o].id),
                        None => None,
                    },
                    open_proposed_decision_type: match open {
                        Some(o) => decision_type_of(ps[o]),
                        None => None,
                    },
                    has_generation_failed: any_with_status(
                        ps,
                        work_unit_id,
                        SupervisorProposalStatus::GenerationFailed,
                        SupervisorProposalStatus::GenerationFailed,
                    ),
                    has_stale_or_superseded: any_with_status(
                        ps,
                        work_unit_id,
                        SupervisorProposalStatus::Stale,
                        SupervisorProposalStatus::Superseded,
                    ),
                },
            )
        },
    }
}

/// A record that listings show as a summary.
pub trait Summarized: Listed {
    type Summary: Ranked;

    /// The record's summary in a collaboration.
    spec fn summary_in(&self, c: CollaborationState) -> Self::Summary;

    fn summarize(&self, c: &CollaborationState) -> (r: Self::Summary)
        requires
            c.wf(),
        ensures
            r == self.summary_in(*c);
}

impl Summarized for Workstream {
    type Summary = WorkstreamSummary;

    open spec fn summary_in(&self, c: CollaborationState) -> WorkstreamSummary {
        WorkstreamSummary {
            id: self.id,
            title: self.title,
            objective: self.objective,
            status: self.status,
            priority: self.priority,
            updated_at: self.updated_at,
        }
    }

    fn summarize(&self, c: &CollaborationState) -> (r: WorkstreamSummary) {
        WorkstreamSummary {
            id: self.id.clone(),
            title: self.title.clone(),
            objective: self.objective.clone(),
            status: self.status,
            priority: self.priority.clone(),
            updated_at: self.updated_at,
        }
    }
}

impl Summarized for WorkUnit {
    type Summary = WorkUnitSummary;

    open spec fn summary_in(&self, c: CollaborationState) -> WorkUnitSummary {
        WorkUnitSummary {
            id: self.id,
            workstream_id: self.workstream_id,
            title: self.title,
            status: self.status,
            dependency_count: self.dependencies@.len() as usize,
            current_assignment_id: self.current_assignment_id,
            latest_report_id: self.latest_report_id,
            proposal: proposal_summary_of(c.supervisor_proposals@, self.id@),
            updated_at: self.updated_at,
        }
    }

    fn summarize(&self, c: &CollaborationState) -> (r: WorkUnitSummary) {
        let proposal = c.work_unit_proposal_summary(self.id.as_str());
        proof {
            let want = proposal_summary_of(c.supervisor_proposals@, self.id@);
            if proposal is Some {
                let p = proposal->0;
                let w = want->0;
                assert(p.latest_proposal_id == w.latest_proposal_id);
                assert(p.open_proposal_id == w.open_proposal_id);
                assert(p == w);
            }
        }
        WorkUnitSummary {
            id: self.id.clone(),
            workstream_id: self.workstream_id.clone(),
            title: self.title.clone(),
            status: self.status,
            dependency_count: self.dependencies.len(),
            current_assignment_id: copy_opt_string(&self.current_assignment_id),
            latest_report_id: copy_opt_string(&self.latest_report_id),
            proposal,
            updated_at: self.updated_at,
        }
    }
}

impl Summarized for Assignment {
    type Summary = AssignmentSummary;

    open spec fn summary_in(&self, c: CollaborationState) -> AssignmentSummary {
        AssignmentSummary {
            id: self.id,
            work_unit_id: self.work_unit_id,
            worker_id: self.worker_id,
            worker_session_id: self.worker_session_id,
            status: self.status,
            attempt_number: self.attempt_number,
            updated_at: self.updated_at,
        }
    }

    fn summarize(&self, c: &CollaborationState) -> (r: AssignmentSummary) {
        AssignmentSummary {
            id: self.id.clone(),
            work_unit_id: self.work_unit_id.clone(),
            worker_id: self.worker_id.clone(),
            worker_session_id: self.worker_session_id.clone(),
            status: self.status,
            attempt_number: self.attempt_number,
            updated_at: self.updated_at,
        }
    }
}

impl Summarized for Report {
    type Summary = ReportSummary;

    open spec fn summary_in(&self, c: CollaborationState) -> ReportSummary {
        ReportSummary {
            id: self.id,
            work_unit_id: self.work_unit_id,
            assignment_id: self.assignment_id,
            worker_id: self.worker_id,
            disposition: self.disposition,
            summary: self.summary,
            confidence: self.confidence,
            parse_result: self.parse_result,
            needs_supervisor_review: self.needs_supervisor_review,
            created_at: self.created_at,
        }
    }

    fn summarize(&self, c: &CollaborationState) -> (r: ReportSummary) {
        ReportSummary {
            id: self.id.clone(),
            work_unit_id: self.work_unit_id.clone(),
            assignment_id: self.assignment_id.clone(),
            worker_id: self.worker_id.clone(),
            disposition: self.disposition,
            summary: self.summary.clone(),
            confidence: self.confidence,
            parse_result: self.parse_result,
            needs_supervisor_review: self.needs_supervisor_review,
            created_at: self.created_at,
        }
    }
}

impl Summarized for Decision {
    type Summary = DecisionSummary;

    open spec fn summary_in(&self, c: CollaborationState) -> DecisionSummary {
        DecisionSummary {
            id: self.id,
            work_unit_id: self.work_unit_id,
            report_id: self.report_id,
            decision_type: self.decision_type,
            rationale: self.rationale,
            created_at: self.created_at,
        }
    }

    fn summarize(&self, c: &CollaborationState) -> (r: DecisionSummary) {
        DecisionSummary {
            id: self.id.clone(),
            work_unit_id: self.work_unit_id.clone(),
            report_id: copy_opt_string(&self.report_id),
            decision_type: self.decision_type,
            rationale: self.rationale.clone(),
            created_at: self.created_at,
        }
    }
}

impl Summarized for SupervisorProposalRecord {
    type Summary = ProposalSummary;

    open spec fn summary_in(&self, c: CollaborationState) -> ProposalSummary {
        ProposalSummary {
            id: self.id,
            primary_work_unit_id: self.primary_work_unit_id,
            source_report_id: self.source_report_id,
            status: self.status,
            proposed_decision_type: decision_type_of(*self),
            created_at: self.created_at,
            reviewed_at: self.reviewed_at,
            has_approval_edits: self.has_approval_edits,
            generation_failure_stage: if self.generation_failure is Some {
                Some(self.generation_failure->0.stage)
            } else {
                None
            },
            reasoner_model: self.reasoner_model,
        }
    }

    fn summarize(&self, c: &CollaborationState) -> (r: ProposalSummary) {
        ProposalSummary {
            id: self.id.clone(),
            primary_work_unit_id: self.primary_work_unit_id.clone(),
            source_report_id: self.source_report_id.clone(),
            status: self.status,
            proposed_decision_type: proposal_decision_type(self),
            created_at: self.created_at,
            reviewed_at: self.reviewed_at,
            has_approval_edits: self.has_approval_edits,
            generation_failure_stage: match &self.generation_failure {
                Some(f) => Some(f.stage),
                None => None,
            },
            reasoner_model: self.reasoner_model.clone(),
        }
    }
}

/// The summary a record has in a collaboration.
pub open spec fn summary_fn<T: Summarized>(c: CollaborationState) -> spec_fn(T) -> T::Summary {
    |x: T| x.summary_in(c)
}

/// The summaries of the records of a table under a key, in table order.
pub open spec fn summaries<T: Summarized>(table: Seq<T>, c: CollaborationState, key: Option<Seq<char>>) -> Seq<T::Summary> {
    selected(table, key).map_values(summary_fn::<T>(c))
}

/// Whether `r` lists the summaries of the records of `table` under `key`, each once, ordered by
/// time (newest or oldest first) and then by id.
pub open spec fn summary_listing<T: Summarized>(
    r: Seq<T::Summary>,
    table: Seq<T>,
    c: CollaborationState,
    key: Option<Seq<char>>,
    newest: bool,
) -> bool {
    &&& r.to_multiset() == summaries(table, c, key).to_multiset()
    &&& listed_by_age(r, newest)
}

/// Lists the summaries of the records of a table under a key by age.
pub fn list_summaries<T: Summarized>(v: &Vec<T>, c: &CollaborationState, key: Option<&str>, newest: bool) -> (r: Vec<
    T::Summary,
>)
    requires
        c.wf(),
    ensures
        summary_listing(r@, v@, *c, key_of(key), newest),
{
    let ghost f = under_key::<T>(key_of(key));
    let ghost g = summary_fn::<T>(*c);
    let mut all: Vec<T::Summary> = Vec::new();
    let mut i: usize = 0;
    assert(v@.take(0).filter(f) =~= Seq::<T>::empty()) by {
        reveal(Seq::filter);
    }
    assert(all@ =~= v@.take(0).filter(f).map_values(g));
    while i < v.len()
        invariant
            i <= v@.len(),
            c.wf(),
            f == under_key::<T>(key_of(key)),
            g == summary_fn::<T>(*c),
            all@ == v@.take(i as int).filter(f).map_values(g),
        decreases v.len() - i,
    {
        let ghost before = all@;
        assert(v@.take(i as int + 1) =~= v@.take(i as int).push(v@[i as int]));
        proof {
            v@.take(i as int).lemma_filter_push(v@[i as int], f);
        }
        if v[i].is_under(key) {
            let s = v[i].summarize(c);
            all.push(s);
            assert(all@ =~= v@.take(i as int + 1).filter(f).map_values(g));
        } else {
            assert(all@ =~= v@.take(i as int + 1).filter(f).map_values(g));
        }
        i = i + 1;
    }
    assert(v@.take(v@.len() as int) =~= v@);
    sort_by_age(all, newest)
}

/// What the collaboration holds, as summaries: workstreams, work units and the assignments not
/// closed, most recently updated first; reports and decisions, most recently created first.
#[derive(Debug)]
pub struct CollaborationSnapshot {
    pub workstreams: Vec<WorkstreamSummary>,
    pub work_units: Vec<WorkUnitSummary>,
    pub assignments: Vec<AssignmentSummary>,
    pub reports: Vec<ReportSummary>,
    pub decisions: Vec<DecisionSummary>,
}

impl CollaborationState {
    /// The collaboration as summaries, each list newest first and ids ascending among equals.
    pub fn collaboration_snapshot(&self) -> (r: CollaborationSnapshot)
        requires
            self.wf(),
        ensures
            summary_listing(r.workstreams@, self.workstreams@, *self, None, true),
            summary_listing(r.work_units@, self.work_units@, *self, None, true),
            summary_listing(r.assignments@, self.assignments@, *self, None, true),
            summary_listing(r.reports@, self.reports@, *self, None, true),
            summary_listing(r.decisions@, self.decisions@, *self, None, true),
    {
        CollaborationSnapshot {
            workstreams: list_summaries(&self.workstreams, self, None, true),
            work_units: list_summaries(&self.work_units, self, None, true),
            assignments: list_summaries(&self.assignments, self, None, true),
            reports: list_summaries(&self.reports, self, None, true),
            decisions: list_summaries(&self.decisions, self, None, true),
        }
    }
}

/// A workstream with its work units, most recently updated first.
#[derive(Debug)]
pub struct WorkstreamDetail {
    pub workstream: Workstream,
    pub work_units: Vec<WorkUnit>,
}

/// A work unit with its assignments, reports, decisions and proposals, each oldest first.
#[derive(Debug)]
pub struct WorkUnitDetail {
    pub work_unit: WorkUnit,
    pub assignments: Vec<Assignment>,
    pub reports: Vec<Report>,
    pub decisions: Vec<Decision>,
    pub proposals: Vec<SupervisorProposalRecord>,
}

/// An assignment with its worker, its worker session and a report on it, if any.
#[derive(Debug)]
pub struct AssignmentDetail {
    pub assignment: Assignment,
    pub worker: Worker,
    pub worker_session: WorkerSession,
    pub report: Option<Report>,
}

/// The refresh of a work unit's stale proposals from `pre` to `post`, reporting `stale`: only
/// the proposals change.
pub open spec fn stale_refresh(pre: CollaborationState, post: CollaborationState, work_unit_id: Seq<char>, stale: Seq<
    SupervisorProposalRecord,
>) -> bool {
    &&& post.wf()
    &&& stale_refreshed(pre, pre.supervisor_proposals@, post.supervisor_proposals@, work_unit_id, stale)
    &&& post.workstreams == pre.workstreams
    &&& post.work_units == pre.work_units
    &&& post.workers == pre.workers
    &&& post.worker_sessions == pre.worker_sessions
    &&& post.assignments == pre.assignments
    &&& post.reports == pre.reports
    &&& post.decisions == pre.decisions
    &&& post.assignment_communications == pre.assignment_communications
}

/// Whether `j` is the first report on an assignment.
pub open spec fn first_report_on(rs: Seq<Report>, assignment_id: Seq<char>, j: int) -> bool {
    &&& 0 <= j < rs.len()
    &&& rs[j].assignment_id@ == assignment_id
    &&& forall|k: int| 0 <= k < j ==> (#[trigger] rs[k]).assignment_id@ != assignment_id
}

/// The first report on an assignment, in table order.
fn find_report_on(rs: &Vec<Report>, assignment_id: &str) -> (r: Option<usize>)
    ensures
        match r {
            Some(j) => first_report_on(rs@, assignment_id@, j as int),
            None => forall|k: int| 0 <= k < rs@.len() ==> (#[trigger] rs@[k]).assignment_id@ != assignment_id@,
        },
{
    let mut j: usize = 0;
    while j < rs.len()
        invariant
            j <= rs@.len(),
            forall|k: int| 0 <= k < j ==> (#[trigger] rs@[k]).assignment_id@ != assignment_id@,
        decreases rs.len() - j,
    {
        if str_eq(rs[j].assignment_id.as_str(), assignment_id) {
            return Some(j);
        }
        j = j + 1;
    }
    None
}

impl CollaborationState {
    /// A workstream with its work units, most recently updated first; an unknown workstream is
    /// refused.
    pub fn workstream_get(&self, workstream_id: &str) -> (r: Result<WorkstreamDetail, OrcasError>)
        requires
            self.wf(),
        ensures
            match pos_of(self.workstreams@, workstream_id@) {
                None => r is Err && r->Err_0@ == OrcasErrorView::Protocol("unknown workstream `"@ + workstream_id@ + "`"@),
                Some(i) => r is Ok && r->Ok_0.workstream == self.workstreams@[i]
                    && listing(r->Ok_0.work_units@, self.work_units@, Some(workstream_id@), true),
            },
    {
        match find(&self.workstreams, workstream_id) {
            None => Err(OrcasError::Protocol(cat3("unknown workstream `", workstream_id, "`"))),
            Some(i) => Ok(
                WorkstreamDetail {
                    workstream: self.workstreams[i].copy(),
                    work_units: list_records(&self.work_units, Some(workstream_id), true),
                },
            ),
        }
    }

    /// The work units, of one workstream when given, most recently updated first.
    pub fn workunit_list(&self, workstream_id: Option<&str>) -> (r: Vec<WorkUnit>)
        ensures
            listing(r@, self.work_units@, key_of(workstream_id), true),
    {
        list_records(&self.work_units, workstream_id, true)
    }

    /// A work unit with its history, oldest first, after marking its stale proposals; also
    /// returns the proposals so marked. An unknown work unit is refused.
    pub fn workunit_get(&mut self, work_unit_id: &str) -> (r: (Result<WorkUnitDetail, OrcasError>, Vec<
        SupervisorProposalRecord,
    >))
        requires
            old(self).wf(),
        ensures
            stale_refresh(*old(self), *final(self), work_unit_id@, r.1@),
            match pos_of(final(self).work_units@, work_unit_id@) {
                None => r.0 is Err && r.0->Err_0@ == OrcasErrorView::Protocol("unknown work unit `"@ + work_unit_id@ + "`"@),
                Some(i) => {
                    &&& r.0 is Ok
                    &&& same_work_unit(r.0->Ok_0.work_unit, final(self).work_units@[i])
                    &&& listing(r.0->Ok_0.assignments@, final(self).assignments@, Some(work_unit_id@), false)
                    &&& listing(r.0->Ok_0.reports@, final(self).reports@, Some(work_unit_id@), false)
                    &&& listing(r.0->Ok_0.decisions@, final(self).decisions@, Some(work_unit_id@), false)
                    &&& listing(r.0->Ok_0.proposals@, final(self).supervisor_proposals@, Some(work_unit_id@), false)
                },
            },
    {
        let stale = self.refresh_stale_proposals_for_work_unit(work_unit_id);
        let detail = match find(&self.work_units, work_unit_id) {
            None => Err(OrcasError::Protocol(cat3("unknown work unit `", work_unit_id, "`"))),
            Some(i) => Ok(
                WorkUnitDetail {
                    work_unit: self.work_units[i].copy(),
                    assignments: list_records(&self.assignments, Some(work_unit_id), false),
                    reports: list_records(&self.reports, Some(work_unit_id), false),
                    decisions: list_records(&self.decisions, Some(work_unit_id), false),
                    proposals: list_records(&self.supervisor_proposals, Some(work_unit_id), false),
                },
            ),
        };
        (detail, stale)
    }

    /// An assignment with its worker, its worker session and the first report on it; an unknown
    /// assignment, worker or worker session is refused.
    pub fn assignment_get(&self, assignment_id: &str) -> (r: Result<AssignmentDetail, OrcasError>)
        requires
            self.wf(),
        ensures
            match pos_of(self.assignments@, assignment_id@) {
                None => r is Err && r->Err_0@ == OrcasErrorView::Protocol("unknown assignment `"@ + assignment_id@ + "`"@),
                Some(a) => {
                    let asg = self.assignments@[a];
                    match (pos_of(self.workers@, asg.worker_id@), pos_of(self.worker_sessions@, asg.worker_session_id@)) {
                        (None, _) => r is Err && r->Err_0@ == OrcasErrorView::Protocol("unknown worker `"@ + asg.worker_id@ + "`"@),
                        (Some(_), None) => r is Err && r->Err_0@ == OrcasErrorView::Protocol(
                            "unknown worker session `"@ + asg.worker_session_id@ + "`"@,
                        ),
                        (Some(w), Some(s)) => {
                            &&& r is Ok
                            &&& same_assignment(r->Ok_0.assignment, asg)
                            &&& r->Ok_0.worker == self.workers@[w]
                            &&& r->Ok_0.worker_session == self.worker_sessions@[s]
                            &&& match r->Ok_0.report {
                                None => forall|k: int| 0 <= k < self.reports@.len()
                                    ==> (#[trigger] self.reports@[k]).assignment_id@ != assignment_id@,
                                Some(rep) => exists|j: int| #[trigger] first_report_on(self.reports@, assignment_id@, j)
                                    && same_report(rep, self.reports@[j]),
                            }
                        },
                    }
                },
            },
    {
        let a = match find(&self.assignments, assignment_id) {
            None => {
                return Err(OrcasError::Protocol(cat3("unknown assignment `", assignment_id, "`")));
            },
            Some(a) => a,
        };
        let asg = &self.assignments[a];
        let w = match find(&self.workers, asg.worker_id.as_str()) {
            None => {
                return Err(OrcasError::Protocol(cat3("unknown worker `", asg.worker_id.as_str(), "`")));
            },
            Some(w) => w,
        };
        let s = match find(&self.worker_sessions, asg.worker_session_id.as_str()) {
            None => {
                return Err(
                    OrcasError::Protocol(cat3("unknown worker session `", asg.worker_session_id.as_str(), "`")),
                );
            },
            Some(s) => s,
        };
        let report = match find_report_on(&self.reports, assignment_id) {
            None => None,
            Some(j) => {
                let rep = self.reports[j].copy();
                assert(first_report_on(self.reports@, assignment_id@, j as int));
                Some(rep)
            },
        };
        Ok(
            AssignmentDetail {
                assignment: asg.copy(),
                worker: self.workers[w].copy(),
                worker_session: self.worker_sessions[s].copy(),
                report,
            },
        )
    }

    /// A report; an unknown report is refused.
    pub fn report_get(&self, report_id: &str) -> (r: Result<Report, OrcasError>)
        requires
            self.wf(),
        ensures
            match pos_of(self.reports@, report_id@) {
                None => r is Err && r->Err_0@ == OrcasErrorView::Protocol("unknown report `"@ + report_id@ + "`"@),
                Some(i) => r is Ok && same_report(r->Ok_0, self.reports@[i]),
            },
    {
        match find(&self.reports, report_id) {
            None => Err(OrcasError::Protocol(cat3("unknown report `", report_id, "`"))),
            Some(i) => Ok(self.reports[i].copy()),
        }
    }

    /// The reports on a work unit, oldest first.
    pub fn report_list_for_workunit(&self, work_unit_id: &str) -> (r: Vec<Report>)
        ensures
            listing(r@, self.reports@, Some(work_unit_id@), false),
    {
        list_records(&self.reports, Some(work_unit_id), false)
    }

    /// A proposal, after marking its work unit's stale proposals; also returns the proposals so
    /// marked. An unknown proposal is refused and nothing changes.
    pub fn proposal_get(&mut self, proposal_id: &str) -> (r: (Result<SupervisorProposalRecord, OrcasError>, Vec<
        SupervisorProposalRecord,
    >))
        requires
            old(self).wf(),
        ensures
            match pos_of(old(self).supervisor_proposals@, proposal_id@) {
                None => {
                    &&& r.0 is Err
                    &&& r.0->Err_0@ == OrcasErrorView::Protocol("unknown proposal `"@ + proposal_id@ + "`"@)
                    &&& *final(self) == *old(self)
                    &&& r.1@.len() == 0
                },
                Some(i) => {
                    &&& stale_refresh(*old(self), *final(self), old(self).supervisor_proposals@[i].primary_work_unit_id@, r.1@)
                    &&& r.0 is Ok
                    &&& r.0->Ok_0 == final(self).supervisor_proposals@[i]
                },
            },
    {
        let i = match find(&self.supervisor_proposals, proposal_id) {
            None => {
                return (Err(OrcasError::Protocol(cat3("unknown proposal `", proposal_id, "`"))), Vec::new());
            },
            Some(i) => i,
        };
        let work_unit_id = self.supervisor_proposals[i].primary_work_unit_id.clone();
        let stale = self.refresh_stale_proposals_for_work_unit(work_unit_id.as_str());
        let proposal = self.supervisor_proposals[i].copy();
        (Ok(proposal), stale)
    }

    /// The summaries of a work unit's proposals, most recently created first, after marking its
    /// stale proposals; also returns the proposals so marked.
    pub fn proposal_list_for_workunit(&mut self, work_unit_id: &str) -> (r: (Vec<ProposalSummary>, Vec<
        SupervisorProposalRecord,
    >))
        requires
            old(self).wf(),
        ensures
            stale_refresh(*old(self), *final(self), work_unit_id@, r.1@),
            summary_listing(r.0@, final(self).supervisor_proposals@, *final(self), Some(work_unit_id@), true),
    {
        let stale = self.refresh_stale_proposals_for_work_unit(work_unit_id);
        let proposals = list_summaries(&self.supervisor_proposals, self, Some(work_unit_id), true);
        (proposals, stale)
    }
}

} // verus!
