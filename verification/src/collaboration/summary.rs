use vstd::prelude::*;

use super::keyed::{keys_unique, Keyed};
use super::types::{
    CollaborationState, DecisionType, SupervisorProposalFailureStage, SupervisorProposalRecord,
    SupervisorProposalStatus,
};
use crate::text::{lemma_seq_lt_asym, lemma_seq_lt_total, lemma_seq_lt_trans, seq_lt, str_eq, str_lt};

verus! {

/// Where a work unit's proposals stand: its latest proposal, its open one, and whether any failed
/// to generate or went stale or was superseded.
#[derive(Debug)]
pub struct WorkUnitProposalSummary {
    pub latest_proposal_id: String,
    pub latest_status: SupervisorProposalStatus,
    pub latest_proposed_decision_type: Option<DecisionType>,
    pub latest_created_at: i64,
    pub latest_reviewed_at: Option<i64>,
    pub latest_has_approval_edits: bool,
    pub latest_failure_stage: Option<SupervisorProposalFailureStage>,
    pub has_open_proposal: bool,
    pub open_proposal_id: Option<String>,
    pub open_proposed_decision_type: Option<DecisionType>,
    pub has_generation_failed: bool,
    pub has_stale_or_superseded: bool,
}

/// The decision a proposal stands for: the approved one if it was approved, else the proposed.
pub open spec fn decision_type_of(p: SupervisorProposalRecord) -> Option<DecisionType> {
    if p.approved_decision_type is Some {
        p.approved_decision_type
    } else {
        p.proposed_decision_type
    }
}

/// The decision a proposal stands for.
pub fn proposal_decision_type(p: &SupervisorProposalRecord) -> (r: Option<DecisionType>)
    ensures
        r == decision_type_of(*p),
{
    match p.approved_decision_type {
        Some(t) => Some(t),
        None => p.proposed_decision_type,
    }
}

/// Whether a proposal belongs to a work unit (and is open, with `open_only`).
pub open spec fn counted(p: SupervisorProposalRecord, work_unit_id: Seq<char>, open_only: bool) -> bool {
    p.primary_work_unit_id@ == work_unit_id && (open_only ==> p.status == SupervisorProposalStatus::Open)
}

/// Whether proposal `a` was created after `b`, the id breaking ties.
pub open spec fn newer(a: SupervisorProposalRecord, b: SupervisorProposalRecord) -> bool {
    a.created_at > b.created_at || (a.created_at == b.created_at && seq_lt(b.id@, a.id@))
}

/// Whether the proposal at `b` is the newest counted one.
pub open spec fn is_newest(ps: Seq<SupervisorProposalRecord>, work_unit_id: Seq<char>, open_only: bool, b: int) -> bool {
    &&& 0 <= b < ps.len()
    &&& counted(ps[b], work_unit_id, open_only)
    &&& forall|c: int| 0 <= c < ps.len() && c != b && counted(#[trigger] ps[c], work_unit_id, open_only) ==> newer(ps[b], ps[c])
}

/// The newest counted proposal, if any.
pub open spec fn newest(ps: Seq<SupervisorProposalRecord>, work_unit_id: Seq<char>, open_only: bool) -> Option<int> {
    if exists|b: int| is_newest(ps, work_unit_id, open_only, b) {
        Some(choose|b: int| is_newest(ps, work_unit_id, open_only, b))
    } else {
        None
    }
}

/// Whether some proposal of a work unit has one of two statuses.
pub open spec fn any_with_status(
    ps: Seq<SupervisorProposalRecord>,
    work_unit_id: Seq<char>,
    s1: SupervisorProposalStatus,
    s2: SupervisorProposalStatus,
) -> bool {
    exists|j: int| 0 <= j < ps.len() && (#[trigger] ps[j]).primary_work_unit_id@ == work_unit_id
        && (ps[j].status == s1 || ps[j].status == s2)
}

proof fn lemma_newest_unique(ps: Seq<SupervisorProposalRecord>, work_unit_id: Seq<char>, open_only: bool, b: int)
    requires
        keys_unique(ps),
        is_newest(ps, work_unit_id, open_only, b),
    ensures
        newest(ps, work_unit_id, open_only) == Some(b),
{
    let c = choose|x: int| is_newest(ps, work_unit_id, open_only, x);
    if c != b {
        assert(newer(ps[b], ps[c]));
        assert(newer(ps[c], ps[b]));
        lemma_seq_lt_asym(ps[b].id@, ps[c].id@);
    }
}

/// The position of the newest counted proposal.
fn newest_position(ps: &Vec<SupervisorProposalRecord>, work_unit_id: &str, open_only: bool) -> (r: Option<usize>)
    requires
        keys_unique(ps@),
    ensures
        match r {
            Some(b) => newest(ps@, work_unit_id@, open_only) == Some(b as int),
            None => newest(ps@, work_unit_id@, open_only) is None,
        },
{
    let mut best: Option<usize> = None;
    let mut i: usize = 0;
    while i < ps.len()
        invariant
            i <= ps@.len(),
            keys_unique(ps@),
            match best {
                Some(b) => b < i && counted(ps@[b as int], work_unit_id@, open_only)
                    && forall|c: int| 0 <= c < i && c != b && counted(#[trigger] ps@[c], work_unit_id@, open_only)
                        ==> newer(ps@[b as int], ps@[c]),
                None => forall|c: int| 0 <= c < i ==> !counted(#[trigger] ps@[c], work_unit_id@, open_only),
            },
        decreases ps.len() - i,
    {
        let p = &ps[i];
        if str_eq(p.primary_work_unit_id.as_str(), work_unit_id) && (!open_only || p.status == SupervisorProposalStatus::Open) {
            match best {
                None => {
                    best = Some(i);
                },
                Some(b) => {
                    let cur = &ps[b];
                    let later = p.created_at > cur.created_at || (p.created_at == cur.created_at
                        && str_lt(cur.id.as_str(), p.id.as_str()));
                    if later {
                        proof {
                            assert forall|c: int| 0 <= c < i + 1 && c != i && counted(#[trigger] ps@[c], work_unit_id@, open_only)
                                implies newer(ps@[i as int], ps@[c]) by {
                                if c != b {
                                    assert(newer(ps@[b as int], ps@[c]));
                                    let pc = ps@[c];
                                    let pb = ps@[b as int];
                                    let pi = ps@[i as int];
                                    if pc.created_at == pb.created_at && pb.created_at == pi.created_at {
                                        lemma_seq_lt_trans(pc.id@, pb.id@, pi.id@);
                                    }
                                }
                            }
                        }
                        best = Some(i);
                    } else {
                        proof {
                            assert(ps@[b as int].id@ != ps@[i as int].id@);
                            lemma_seq_lt_total(ps@[b as int].id@, ps@[i as int].id@);
                        }
                    }
                },
            }
        }
        i = i + 1;
    }
    match best {
        Some(b) => {
            proof { lemma_newest_unique(ps@, work_unit_id@, open_only, b as int); }
            Some(b)
        },
        None => None,
    }
}

/// Whether some proposal of a work unit has one of two statuses.
fn any_status(
    ps: &Vec<SupervisorProposalRecord>,
    work_unit_id: &str,
    s1: SupervisorProposalStatus,
    s2: SupervisorProposalStatus,
) -> (r: bool)
    ensures
        r == any_with_status(ps@, work_unit_id@, s1, s2),
{
    let mut i: usize = 0;
    while i < ps.len()
        invariant
            i <= ps@.len(),
            forall|j: int| 0 <= j < i ==> !((#[trigger] ps@[j]).primary_work_unit_id@ == work_unit_id@
                && (ps@[j].status == s1 || ps@[j].status == s2)),
        decreases ps.len() - i,
    {
        if str_eq(ps[i].primary_work_unit_id.as_str(), work_unit_id) && (ps[i].status == s1 || ps[i].status == s2) {
            return true;
        }
        i = i + 1;
    }
    false
}

/// The summary of a work unit's proposals, as the summary's fields name them.
pub open spec fn summary_of(
    ps: Seq<SupervisorProposalRecord>,
    work_unit_id: Seq<char>,
    s: WorkUnitProposalSummary,
    latest: SupervisorProposalRecord,
) -> bool {
    &&& s.latest_proposal_id == latest.id
    &&& s.latest_status == latest.status
    &&& s.latest_proposed_decision_type == decision_type_of(latest)
    &&& s.latest_created_at == latest.created_at
    &&& s.latest_reviewed_at == latest.reviewed_at
    &&& s.latest_has_approval_edits == latest.has_approval_edits
    &&& s.latest_failure_stage == (if latest.generation_failure is Some {
        Some(latest.generation_failure->0.stage)
    } else {
        None
    })
    &&& match newest(ps, work_unit_id, true) {
        Some(o) => {
            &&& s.has_open_proposal
            &&& s.open_proposal_id == Some(ps[o].id)
            &&& s.open_proposed_decision_type == decision_type_of(ps[o])
        },
        None => !s.has_open_proposal && s.open_proposal_id is None && s.open_proposed_decision_type is None,
    }
    &&& s.has_generation_failed == any_with_status(
        ps, work_unit_id, SupervisorProposalStatus::GenerationFailed, SupervisorProposalStatus::GenerationFailed)
    &&& s.has_stale_or_superseded == any_with_status(
        ps, work_unit_id, SupervisorProposalStatus::Stale, SupervisorProposalStatus::Superseded)
}

impl CollaborationState {
    /// Where a work unit's proposals stand, or `None` when it has none.
    pub fn work_unit_proposal_summary(&self, work_unit_id: &str) -> (r: Option<WorkUnitProposalSummary>)
        requires
            self.wf(),
        ensures
            match newest(self.supervisor_proposals@, work_unit_id@, false) {
                None => r is None,
                Some(b) => r is Some && summary_of(self.supervisor_proposals@, work_unit_id@, r->0, self.supervisor_proposals@[b]),
            },
    {
        let ps = &self.supervisor_proposals;
        let b = match newest_position(ps, work_unit_id, false) {
            None => {
                return None;
            },
            Some(b) => b,
        };
        let latest = &ps[b];
        let open = newest_position(ps, work_unit_id, true);
        let (has_open_proposal, open_proposal_id, open_proposed_decision_type) = match open {
            Some(o) => (true, Some(ps[o].id.clone()), proposal_decision_type(&ps[o])),
            None => (false, None, None),
        };
        Some(WorkUnitProposalSummary {
            latest_proposal_id: latest.id.clone(),
            latest_status: latest.status,
            latest_proposed_decision_type: proposal_decision_type(latest),
            latest_created_at: latest.created_at,
            latest_reviewed_at: latest.reviewed_at,
            latest_has_approval_edits: latest.has_approval_edits,
            latest_failure_stage: match &latest.generation_failure {
                Some(f) => Some(f.stage),
                None => None,
            },
            has_open_proposal,
            open_proposal_id,
            open_proposed_decision_type,
            has_generation_failed: any_status(
                ps, work_unit_id, SupervisorProposalStatus::GenerationFailed, SupervisorProposalStatus::GenerationFailed),
            has_stale_or_superseded: any_status(
                ps, work_unit_id, SupervisorProposalStatus::Stale, SupervisorProposalStatus::Superseded),
        })
    }
}

} // verus!
