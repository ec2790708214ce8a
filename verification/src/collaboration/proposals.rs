use vstd::prelude::*;

use super::keyed::{find, get, keys_unique, lemma_pos_of, lemma_update_keyed, pos_of, Keyed};
use super::seeds::opt_view;
use super::decision::{decision_recorded, DecisionApplyRequest, DecisionOutcome};
use super::types::{
    Assignment, AssignmentCommunicationRecord, AssignmentCommunicationSeed, CollaborationState, DecisionType, SupervisorProposalRecord,
    SupervisorProposalStatus,
};
use crate::model::{OrcasError, OrcasErrorView, WorkUnitStatus};
use crate::model::copy_opt_string;
use crate::text::{cat2, cat3, owned, str_eq};

verus! {

/// Why a proposal no longer fits the state, if it does not: its work unit must still exist and
/// await a decision, with the proposal's source report as its latest report and that report's
/// assignment as its current assignment.
pub open spec fn stale_reason(st: CollaborationState, p: SupervisorProposalRecord) -> Option<Seq<char>> {
    match get(st.work_units@, p.primary_work_unit_id@) {
        None => Some("work unit `"@ + p.primary_work_unit_id@ + "` no longer exists"@),
        Some(w) => if w.status != WorkUnitStatus::AwaitingDecision {
            Some("work unit `"@ + w.id@ + "` is no longer awaiting_decision"@)
        } else if opt_view(w.latest_report_id) != Some(p.source_report_id@) {
            Some("a newer report replaced source report `"@ + p.source_report_id@ + "`"@)
        } else {
            match get(st.reports@, p.source_report_id@) {
                None => Some("source report `"@ + p.source_report_id@ + "` is unknown"@),
                Some(rep) => if opt_view(w.current_assignment_id) != Some(rep.assignment_id@) {
                    Some("the current assignment of work unit `"@ + w.id@ + "` changed"@)
                } else {
                    None
                },
            }
        },
    }
}

/// Whether the stale refresh for a work unit marks a proposal stale.
pub open spec fn goes_stale(st: CollaborationState, p: SupervisorProposalRecord, work_unit_id: Seq<char>) -> bool {
    &&& p.primary_work_unit_id@ == work_unit_id
    &&& p.status == SupervisorProposalStatus::Open
    &&& stale_reason(st, p) is Some
}

/// A proposal after the stale refresh: one that goes stale is marked so, and given the reason as
/// its review note unless it has one; any other is unchanged.
pub open spec fn stale_marked(
    st: CollaborationState,
    pre: SupervisorProposalRecord,
    post: SupervisorProposalRecord,
    work_unit_id: Seq<char>,
) -> bool {
    if goes_stale(st, pre, work_unit_id) {
        &&& post == SupervisorProposalRecord { status: SupervisorProposalStatus::Stale, review_note: post.review_note, ..pre }
        &&& pre.review_note is Some ==> post.review_note == pre.review_note
        &&& pre.review_note is None ==> post.review_note is Some
            && post.review_note->0@ == "Proposal became stale: "@ + stale_reason(st, pre)->0
    } else {
        post == pre
    }
}

/// The proposals among the first `n` that went stale, as they are after the refresh, in order.
pub open spec fn marked_upto(
    st: CollaborationState,
    pre: Seq<SupervisorProposalRecord>,
    post: Seq<SupervisorProposalRecord>,
    work_unit_id: Seq<char>,
    n: int,
) -> Seq<SupervisorProposalRecord>
    decreases n,
{
    if n <= 0 {
        Seq::empty()
    } else {
        marked_upto(st, pre, post, work_unit_id, n - 1) + if goes_stale(st, pre[n - 1], work_unit_id) {
            seq![post[n - 1]]
        } else {
            Seq::empty()
        }
    }
}

/// The stale refresh for a work unit, from the proposals `pre` of state `st` to `post`, reporting
/// `changed`: each proposal marked as `stale_marked` says, and the marked ones reported in order.
pub open spec fn stale_refreshed(
    st: CollaborationState,
    pre: Seq<SupervisorProposalRecord>,
    post: Seq<SupervisorProposalRecord>,
    work_unit_id: Seq<char>,
    changed: Seq<SupervisorProposalRecord>,
) -> bool {
    &&& stale_marked_all(st, pre, post, work_unit_id)
    &&& changed == marked_upto(st, pre, post, work_unit_id, pre.len() as int)
}

/// Each proposal of `pre` marked into `post` as `stale_marked` says.
pub open spec fn stale_marked_all(
    st: CollaborationState,
    pre: Seq<SupervisorProposalRecord>,
    post: Seq<SupervisorProposalRecord>,
    work_unit_id: Seq<char>,
) -> bool {
    &&& post.len() == pre.len()
    &&& forall|j: int| 0 <= j < pre.len() ==> #[trigger] stale_marked(st, pre[j], post[j], work_unit_id)
}

/// The marked list reads the refreshed records only where a proposal went stale.
pub proof fn lemma_marked_upto_agree(
    st: CollaborationState,
    pre: Seq<SupervisorProposalRecord>,
    p1: Seq<SupervisorProposalRecord>,
    p2: Seq<SupervisorProposalRecord>,
    work_unit_id: Seq<char>,
    n: int,
)
    requires
        n <= pre.len(),
        n <= p1.len(),
        n <= p2.len(),
        forall|j: int| 0 <= j < n && goes_stale(st, pre[j], work_unit_id) ==> p1[j] == p2[j],
    ensures
        marked_upto(st, pre, p1, work_unit_id, n) == marked_upto(st, pre, p2, work_unit_id, n),
    decreases n,
{
    if n > 0 {
        lemma_marked_upto_agree(st, pre, p1, p2, work_unit_id, n - 1);
    }
}

/// The marked list is empty when none of the first `n` proposals goes stale.
proof fn lemma_marked_upto_none(
    st: CollaborationState,
    pre: Seq<SupervisorProposalRecord>,
    post: Seq<SupervisorProposalRecord>,
    work_unit_id: Seq<char>,
    n: int,
)
    requires
        n <= pre.len(),
        forall|j: int| 0 <= j < n ==> !goes_stale(st, #[trigger] pre[j], work_unit_id),
    ensures
        marked_upto(st, pre, post, work_unit_id, n) == Seq::<SupervisorProposalRecord>::empty(),
    decreases n,
{
    if n > 0 {
        lemma_marked_upto_none(st, pre, post, work_unit_id, n - 1);
        assert(marked_upto(st, pre, post, work_unit_id, n) =~= marked_upto(st, pre, post, work_unit_id, n - 1));
    }
}

/// The stale refresh settles in one pass: refreshing a work unit's proposals again, while its
/// work units and reports stay as they are, marks nothing and reports nothing.
pub proof fn lemma_stale_refresh_settles(
    st: CollaborationState,
    mid: CollaborationState,
    work_unit_id: Seq<char>,
    changed: Seq<SupervisorProposalRecord>,
)
    requires
        stale_refreshed(st, st.supervisor_proposals@, mid.supervisor_proposals@, work_unit_id, changed),
        mid.work_units == st.work_units,
        mid.reports == st.reports,
    ensures
        stale_refreshed(mid, mid.supervisor_proposals@, mid.supervisor_proposals@, work_unit_id, Seq::empty()),
{
    let pre = st.supervisor_proposals@;
    let post = mid.supervisor_proposals@;
    assert forall|j: int| 0 <= j < post.len() implies !goes_stale(mid, #[trigger] post[j], work_unit_id) by {
        assert(stale_marked(st, pre[j], post[j], work_unit_id));
        if !goes_stale(st, pre[j], work_unit_id) {
            assert(stale_reason(mid, post[j]) == stale_reason(st, pre[j]));
        }
    }
    assert forall|j: int| 0 <= j < post.len() implies #[trigger] stale_marked(mid, post[j], post[j], work_unit_id) by {
        assert(!goes_stale(mid, post[j], work_unit_id));
    }
    lemma_marked_upto_none(mid, post, post, work_unit_id, post.len() as int);
}

/// The name a decision on a proposal is signed with: the one given, else "supervisor_cli".
pub open spec fn signer(reviewed_by: Option<String>) -> Seq<char> {
    if reviewed_by is Some {
        reviewed_by->0@
    } else {
        "supervisor_cli"@
    }
}

/// A proposal after its rejection.
pub open spec fn rejected(
    q: SupervisorProposalRecord,
    post: SupervisorProposalRecord,
    reviewed_by: Option<String>,
    review_note: Option<String>,
    now: i64,
) -> bool {
    &&& post == SupervisorProposalRecord {
        status: SupervisorProposalStatus::Rejected,
        reviewed_at: Some(now),
        reviewed_by: post.reviewed_by,
        review_note: review_note,
        ..q
    }
    &&& post.reviewed_by is Some
    &&& post.reviewed_by->0@ == signer(reviewed_by)
}

/// Whether a proposal is still open after the stale refresh for its work unit.
pub open spec fn open_after_refresh(st: CollaborationState, q: SupervisorProposalRecord) -> bool {
    q.status == SupervisorProposalStatus::Open && !goes_stale(st, q, q.primary_work_unit_id@)
}

/// A review of the proposal at position `k`: the stale refresh for its work unit ran over every
/// other proposal, and reported `stale`.
pub open spec fn refreshed_around(
    st: CollaborationState,
    post: Seq<SupervisorProposalRecord>,
    k: int,
    stale: Seq<SupervisorProposalRecord>,
) -> bool {
    let pre = st.supervisor_proposals@;
    let wu = pre[k].primary_work_unit_id@;
    &&& post.len() == pre.len()
    &&& forall|j: int| 0 <= j < pre.len() && j != k ==> #[trigger] stale_marked(st, pre[j], post[j], wu)
    &&& stale == marked_upto(st, pre, post, wu, pre.len() as int)
}

/// The next assignment an approved proposal drafts, as validated and compiled.
#[derive(Debug)]
pub struct ApprovedDraft {
    pub instructions: String,
    pub worker_id: Option<String>,
    pub worker_kind: Option<String>,
    pub communication_seed: AssignmentCommunicationSeed,
}

/// A proposal's payload as approved: after the operator's edits and their validation.
#[derive(Debug)]
pub struct ApprovedProposal {
    pub decision_type: DecisionType,
    pub rationale: String,
    pub requires_assignment: bool,
    pub draft: Option<ApprovedDraft>,
    pub has_edits: bool,
}

/// What approving a proposal produced.
#[derive(Debug)]
pub struct ProposalApproved {
    pub proposal: SupervisorProposalRecord,
    pub siblings: Vec<SupervisorProposalRecord>,
    pub outcome: DecisionOutcome,
}

/// The decision an approved proposal asks for.
pub open spec fn approval_request(q: SupervisorProposalRecord, a: ApprovedProposal) -> DecisionApplyRequest {
    DecisionApplyRequest {
        work_unit_id: q.primary_work_unit_id,
        report_id: Some(q.source_report_id),
        decision_type: a.decision_type,
        rationale: a.rationale,
        instructions: if a.requires_assignment { Some(a.draft->0.instructions) } else { None },
        worker_id: if a.requires_assignment { a.draft->0.worker_id } else { None },
        worker_kind: if a.requires_assignment { a.draft->0.worker_kind } else { None },
    }
}

/// The seed an approved proposal hands its next assignment.
pub open spec fn approval_seed(a: ApprovedProposal) -> Option<AssignmentCommunicationSeed> {
    if a.requires_assignment {
        Some(a.draft->0.communication_seed)
    } else {
        None
    }
}

/// Whether a proposal is a sibling that approving `q` settles: another open proposal of its
/// work unit.
pub open spec fn is_open_sibling(q: SupervisorProposalRecord, p: SupervisorProposalRecord) -> bool {
    &&& p.primary_work_unit_id@ == q.primary_work_unit_id@
    &&& p.id@ != q.id@
    &&& p.status == SupervisorProposalStatus::Open
}

/// A proposal after `q` was approved: an open sibling on the same report is superseded, one on
/// another report goes stale, and either is noted unless it has a note; others are unchanged.
pub open spec fn sibling_settled(q: SupervisorProposalRecord, pre: SupervisorProposalRecord, post: SupervisorProposalRecord) -> bool {
    if is_open_sibling(q, pre) {
        &&& post == SupervisorProposalRecord {
            status: if pre.source_report_id@ == q.source_report_id@ {
                SupervisorProposalStatus::Superseded
            } else {
                SupervisorProposalStatus::Stale
            },
            review_note: post.review_note,
            ..pre
        }
        &&& pre.review_note is Some ==> post.review_note == pre.review_note
        &&& pre.review_note is None ==> post.review_note is Some
            && post.review_note->0@ == "Proposal `"@ + q.id@ + "` was approved for this work unit."@
    } else {
        post == pre
    }
}

/// The siblings among the first `n` proposals, as settled, in order.
pub open spec fn settled_upto(
    q: SupervisorProposalRecord,
    pre: Seq<SupervisorProposalRecord>,
    post: Seq<SupervisorProposalRecord>,
    n: int,
) -> Seq<SupervisorProposalRecord>
    decreases n,
{
    if n <= 0 {
        Seq::empty()
    } else {
        settled_upto(q, pre, post, n - 1) + if is_open_sibling(q, pre[n - 1]) {
            seq![post[n - 1]]
        } else {
            Seq::empty()
        }
    }
}

/// The settled list reads the settled records only at siblings.
pub proof fn lemma_settled_upto_agree(
    q: SupervisorProposalRecord,
    pre: Seq<SupervisorProposalRecord>,
    p1: Seq<SupervisorProposalRecord>,
    p2: Seq<SupervisorProposalRecord>,
    n: int,
)
    requires
        n <= pre.len(),
        n <= p1.len(),
        n <= p2.len(),
        forall|j: int| 0 <= j < n && is_open_sibling(q, pre[j]) ==> p1[j] == p2[j],
    ensures
        settled_upto(q, pre, p1, n) == settled_upto(q, pre, p2, n),
    decreases n,
{
    if n > 0 {
        lemma_settled_upto_agree(q, pre, p1, p2, n - 1);
    }
}

/// The approved proposal's record.
pub open spec fn approved_record(
    base: SupervisorProposalRecord,
    post: SupervisorProposalRecord,
    decision_type: DecisionType,
    has_edits: bool,
    o: DecisionOutcome,
    reviewed_by: Option<String>,
    review_note: Option<String>,
    now: i64,
) -> bool {
    &&& post == SupervisorProposalRecord {
        status: SupervisorProposalStatus::Approved,
        approved_decision_type: Some(decision_type),
        has_approval_edits: has_edits,
        reviewed_at: Some(now),
        reviewed_by: post.reviewed_by,
        review_note: review_note,
        approved_decision_id: post.approved_decision_id,
        approved_assignment_id: post.approved_assignment_id,
        ..base
    }
    &&& post.reviewed_by is Some
    &&& post.reviewed_by->0@ == signer(reviewed_by)
    &&& post.approved_decision_id is Some
    &&& post.approved_decision_id->0@ == o.decision.id@
    &&& opt_view(post.approved_assignment_id) == (if o.next_assignment is Some {
        Some(o.next_assignment->0.id@)
    } else {
        None
    })
}

/// The settling of an approval over the state `pre` after its decision: siblings settled, the
/// proposal's record approved, everything else unchanged.
pub open spec fn approval_settled(
    pre: CollaborationState,
    post: CollaborationState,
    q: SupervisorProposalRecord,
    decision_type: DecisionType,
    has_edits: bool,
    o: DecisionOutcome,
    reviewed_by: Option<String>,
    review_note: Option<String>,
    now: i64,
    r: Result<ProposalApproved, OrcasError>,
) -> bool {
    let sp = pre.supervisor_proposals@;
    &&& post.workstreams == pre.workstreams
    &&& post.work_units == pre.work_units
    &&& post.workers == pre.workers
    &&& post.worker_sessions == pre.worker_sessions
    &&& post.assignments == pre.assignments
    &&& post.reports == pre.reports
    &&& post.decisions == pre.decisions
    &&& post.assignment_communications == pre.assignment_communications
    &&& match pos_of(sp, q.id@) {
        None => r is Err && r->Err_0@ == OrcasErrorView::Protocol("unknown proposal `"@ + q.id@ + "`"@)
            && post.supervisor_proposals@.len() == sp.len()
            && forall|j: int| 0 <= j < sp.len() ==> #[trigger] sibling_settled(q, sp[j], post.supervisor_proposals@[j]),
        Some(k) => {
            let fin = post.supervisor_proposals@;
            &&& fin.len() == sp.len()
            &&& forall|j: int| 0 <= j < sp.len() && j != k ==> #[trigger] sibling_settled(q, sp[j], fin[j])
            &&& approved_record(sp[k], fin[k], decision_type, has_edits, o, reviewed_by, review_note, now)
            &&& r is Ok
            &&& r->Ok_0.proposal == fin[k]
            &&& r->Ok_0.siblings@ == settled_upto(q, sp, fin, sp.len() as int)
            &&& r->Ok_0.outcome == o
        },
    }
}

/// What approving a proposal did, once the stale refresh left the state `mid` and the proposal
/// `q` open.
pub open spec fn approval_flow<F: Fn(&Assignment) -> AssignmentCommunicationRecord>(
    mid: CollaborationState,
    post: CollaborationState,
    q: SupervisorProposalRecord,
    approval: Result<ApprovedProposal, OrcasError>,
    reviewed_by: Option<String>,
    review_note: Option<String>,
    now: i64,
    decision_id: Seq<char>,
    new_assignment_id: Seq<char>,
    new_session_id: Seq<char>,
    build: &F,
    r: Result<ProposalApproved, OrcasError>,
) -> bool {
    if q.proposed_decision_type is None {
        r is Err && r->Err_0@ == OrcasErrorView::Protocol(
            "proposal `"@ + q.id@ + "` does not contain a model-generated proposal payload"@,
        ) && post == mid
    } else {
        match approval {
            Err(e) => r is Err && r->Err_0 == e && post == mid,
            Ok(a) => if a.requires_assignment && a.draft is None {
                r is Err && r->Err_0@ == OrcasErrorView::Protocol(
                    "approved proposal requires a draft assignment but none was present"@,
                ) && post == mid
            } else {
                exists|dec: CollaborationState, rd: Result<DecisionOutcome, OrcasError>| {
                    &&& #[trigger] decision_recorded(
                        mid, dec, rd, approval_request(q, a), approval_seed(a), now, decision_id, new_assignment_id, new_session_id, build,
                    )
                    &&& dec.wf()
                    &&& match rd {
                        Err(e) => r is Err && r->Err_0 == e && post == dec,
                        Ok(o) => approval_settled(dec, post, q, a.decision_type, a.has_edits, o, reviewed_by, review_note, now, r),
                    }
                }
            },
        }
    }
}

/// What approving the proposal at position `k` did, given the state `mid` its work unit's stale
/// refresh left.
pub open spec fn approval_after_refresh<F: Fn(&Assignment) -> AssignmentCommunicationRecord>(
    pre: CollaborationState,
    mid: CollaborationState,
    post: CollaborationState,
    k: int,
    approval: Result<ApprovedProposal, OrcasError>,
    reviewed_by: Option<String>,
    review_note: Option<String>,
    now: i64,
    decision_id: Seq<char>,
    new_assignment_id: Seq<char>,
    new_session_id: Seq<char>,
    build: &F,
    r: (Vec<SupervisorProposalRecord>, Result<ProposalApproved, OrcasError>),
) -> bool {
    let q = pre.supervisor_proposals@[k];
    &&& refreshed_around(pre, mid.supervisor_proposals@, k, r.0@)
    &&& mid == CollaborationState { supervisor_proposals: mid.supervisor_proposals, ..pre }
    &&& mid.wf()
    &&& if open_after_refresh(pre, q) {
        approval_flow(mid, post, q, approval, reviewed_by, review_note, now, decision_id, new_assignment_id, new_session_id, build, r.1)
    } else {
        &&& stale_marked(pre, q, mid.supervisor_proposals@[k], q.primary_work_unit_id@)
        &&& r.1 is Err
        &&& r.1->Err_0@ == OrcasErrorView::Protocol("proposal `"@ + q.id@ + "` is not open and cannot be approved"@)
        &&& post == mid
    }
}

impl CollaborationState {
    /// Why a proposal no longer fits this state, if it does not.
    pub fn proposal_stale_reason(&self, p: &SupervisorProposalRecord) -> (r: Option<String>)
        requires
            self.wf(),
        ensures
            opt_view(r) == stale_reason(*self, *p),
    {
        let wi = match find(&self.work_units, p.primary_work_unit_id.as_str()) {
            None => {
                return Some(cat3("work unit `", p.primary_work_unit_id.as_str(), "` no longer exists"));
            },
            Some(i) => i,
        };
        let w = &self.work_units[wi];
        if w.status != WorkUnitStatus::AwaitingDecision {
            return Some(cat3("work unit `", w.id.as_str(), "` is no longer awaiting_decision"));
        }
        let latest_matches = match &w.latest_report_id {
            Some(x) => str_eq(x.as_str(), p.source_report_id.as_str()),
            None => false,
        };
        if !latest_matches {
            return Some(cat3("a newer report replaced source report `", p.source_report_id.as_str(), "`"));
        }
        let ri = match find(&self.reports, p.source_report_id.as_str()) {
            None => {
                return Some(cat3("source report `", p.source_report_id.as_str(), "` is unknown"));
            },
            Some(k) => k,
        };
        let current_matches = match &w.current_assignment_id {
            Some(x) => str_eq(x.as_str(), self.reports[ri].assignment_id.as_str()),
            None => false,
        };
        if !current_matches {
            Some(cat3("the current assignment of work unit `", w.id.as_str(), "` changed"))
        } else {
            None
        }
    }

    /// Marks stale every open proposal of a work unit that no longer fits the state, and returns
    /// the proposals so marked.
    pub fn refresh_stale_proposals_for_work_unit(&mut self, work_unit_id: &str) -> (r: Vec<SupervisorProposalRecord>)
        requires
            old(self).wf(),
        ensures
            final(self).wf(),
            stale_refreshed(*old(self), old(self).supervisor_proposals@, final(self).supervisor_proposals@, work_unit_id@, r@),
            final(self).workstreams == old(self).workstreams,
            final(self).work_units == old(self).work_units,
            final(self).workers == old(self).workers,
            final(self).worker_sessions == old(self).worker_sessions,
            final(self).assignments == old(self).assignments,
            final(self).reports == old(self).reports,
            final(self).decisions == old(self).decisions,
            final(self).assignment_communications == old(self).assignment_communications,
    {
        let ghost st = *self;
        let ghost pre = self.supervisor_proposals@;
        let mut changed: Vec<SupervisorProposalRecord> = Vec::new();
        let mut i: usize = 0;
        while i < self.supervisor_proposals.len()
            invariant
                i <= self.supervisor_proposals@.len(),
                self.supervisor_proposals@.len() == pre.len(),
                pre == st.supervisor_proposals@,
                forall|j: int| 0 <= j < i ==> #[trigger] stale_marked(st, pre[j], self.supervisor_proposals@[j], work_unit_id@),
                forall|j: int| i <= j < pre.len() ==> #[trigger] self.supervisor_proposals@[j] == pre[j],
                changed@ == marked_upto(st, pre, self.supervisor_proposals@, work_unit_id@, i as int),
                self.wf(),
                self.workstreams == st.workstreams,
                self.work_units == st.work_units,
                self.workers == st.workers,
                self.worker_sessions == st.worker_sessions,
                self.assignments == st.assignments,
                self.reports == st.reports,
                self.decisions == st.decisions,
                self.assignment_communications == st.assignment_communications,
            decreases self.supervisor_proposals.len() - i,
        {
            let ghost before = self.supervisor_proposals@;
            let candidate = str_eq(self.supervisor_proposals[i].primary_work_unit_id.as_str(), work_unit_id)
                && self.supervisor_proposals[i].status == SupervisorProposalStatus::Open;
            if candidate {
                let reason = self.proposal_stale_reason(&self.supervisor_proposals[i]);
                match reason {
                    Some(reason) => {
                        let mut p = self.supervisor_proposals.remove(i);
                        p.status = SupervisorProposalStatus::Stale;
                        if p.review_note.is_none() {
                            p.review_note = Some(cat2("Proposal became stale: ", reason.as_str()));
                        }
                        let reported = p.copy();
                        self.supervisor_proposals.insert(i, p);
                        proof {
                            assert(self.supervisor_proposals@ =~= before.update(i as int, p));
                            lemma_update_keyed(before, i as int, p);
                            lemma_marked_upto_agree(st, pre, before, self.supervisor_proposals@, work_unit_id@, i as int);
                        }
                        changed.push(reported);
                    },
                    None => {},
                }
            }
            proof {
                lemma_marked_upto_agree(st, pre, before, self.supervisor_proposals@, work_unit_id@, i as int);
                assert(stale_marked(st, pre[i as int], self.supervisor_proposals@[i as int], work_unit_id@));
            }
            i = i + 1;
        }
        changed
    }

    /// Rejects an open proposal, after the stale refresh for its work unit; returns the proposals
    /// that refresh marked stale, and the rejected proposal or why it could not be rejected.
    pub fn reject_proposal(
        &mut self,
        proposal_id: &str,
        reviewed_by: Option<String>,
        review_note: Option<String>,
        now: i64,
    ) -> (r: (Vec<SupervisorProposalRecord>, Result<SupervisorProposalRecord, OrcasError>))
        requires
            old(self).wf(),
        ensures
            final(self).wf(),
            final(self).workstreams == old(self).workstreams,
            final(self).work_units == old(self).work_units,
            final(self).workers == old(self).workers,
            final(self).worker_sessions == old(self).worker_sessions,
            final(self).assignments == old(self).assignments,
            final(self).reports == old(self).reports,
            final(self).decisions == old(self).decisions,
            final(self).assignment_communications == old(self).assignment_communications,
            match pos_of(old(self).supervisor_proposals@, proposal_id@) {
                None => {
                    &&& r.0@.len() == 0
                    &&& r.1 is Err
                    &&& r.1->Err_0@ == OrcasErrorView::Protocol("unknown proposal `"@ + proposal_id@ + "`"@)
                    &&& final(self).supervisor_proposals == old(self).supervisor_proposals
                },
                Some(k) => {
                    let q = old(self).supervisor_proposals@[k];
                    let post = final(self).supervisor_proposals@;
                    &&& refreshed_around(*old(self), post, k, r.0@)
                    &&& if open_after_refresh(*old(self), q) {
                        &&& rejected(q, post[k], reviewed_by, review_note, now)
                        &&& r.1 is Ok
                        &&& r.1->Ok_0 == post[k]
                    } else {
                        &&& stale_marked(*old(self), q, post[k], q.primary_work_unit_id@)
                        &&& r.1 is Err
                        &&& r.1->Err_0@ == OrcasErrorView::Protocol(
                            "proposal `"@ + proposal_id@ + "` is not open and cannot be rejected"@,
                        )
                    }
                },
            },
    {
        let k = match find(&self.supervisor_proposals, proposal_id) {
            None => {
                return (Vec::new(), Err(OrcasError::Protocol(cat3("unknown proposal `", proposal_id, "`"))));
            },
            Some(k) => k,
        };
        let ghost st = *self;
        let wu = self.supervisor_proposals[k].primary_work_unit_id.clone();
        let stale = self.refresh_stale_proposals_for_work_unit(wu.as_str());
        let ghost mid = self.supervisor_proposals@;
        assert(stale_marked(st, st.supervisor_proposals@[k as int], mid[k as int], wu@));
        if self.supervisor_proposals[k].status != SupervisorProposalStatus::Open {
            return (stale, Err(OrcasError::Protocol(cat3("proposal `", proposal_id, "` is not open and cannot be rejected"))));
        }
        let mut p = self.supervisor_proposals.remove(k);
        p.status = SupervisorProposalStatus::Rejected;
        p.reviewed_at = Some(now);
        p.reviewed_by = Some(match reviewed_by {
            Some(b) => b,
            None => owned("supervisor_cli"),
        });
        p.review_note = review_note;
        let result = p.copy();
        self.supervisor_proposals.insert(k, p);
        proof {
            assert(self.supervisor_proposals@ =~= mid.update(k as int, p));
            lemma_update_keyed(mid, k as int, p);
            lemma_marked_upto_agree(st, st.supervisor_proposals@, mid, self.supervisor_proposals@, wu@, mid.len() as int);
        }
        (stale, Ok(result))
    }

    /// Approves an open proposal: after the stale refresh for its work unit, the proposal must
    /// still be open and hold a payload; the approved payload (edited and validated) is applied
    /// as a decision on the work unit (`decision_apply`, so a next assignment gets the
    /// communication record `build` makes for it), its open siblings settled and its record
    /// approved. Returns the proposals the first refresh marked stale, and the approval or why it
    /// failed.
    pub fn approve_proposal<F: Fn(&Assignment) -> AssignmentCommunicationRecord>(
        &mut self,
        proposal_id: &str,
        approval: Result<ApprovedProposal, OrcasError>,
        reviewed_by: Option<String>,
        review_note: Option<String>,
        now: i64,
        decision_id: String,
        new_assignment_id: String,
        new_session_id: String,
        build: &F,
    ) -> (r: (Vec<SupervisorProposalRecord>, Result<ProposalApproved, OrcasError>))
        requires
            old(self).wf(),
            forall|i: int| 0 <= i < old(self).assignments@.len() ==> (#[trigger] old(self).assignments@[i]).attempt_number < u32::MAX,
            forall|a: Assignment| #[trigger] build.requires((&a,)),
            forall|a: Assignment, rec: AssignmentCommunicationRecord|
                #[trigger] build.ensures((&a,), rec) ==> rec.assignment_id@ == a.id@,
        ensures
            final(self).wf(),
            match pos_of(old(self).supervisor_proposals@, proposal_id@) {
                None => {
                    &&& r.0@.len() == 0
                    &&& r.1 is Err
                    &&& r.1->Err_0@ == OrcasErrorView::Protocol("unknown proposal `"@ + proposal_id@ + "`"@)
                    &&& *final(self) == *old(self)
                },
                Some(k) => exists|mid: CollaborationState| #[trigger] approval_after_refresh(
                    *old(self), mid, *final(self), k, approval, reviewed_by, review_note, now,
                    decision_id@, new_assignment_id@, new_session_id@, build, r,
                ),
            },
    {
        let k = match find(&self.supervisor_proposals, proposal_id) {
            None => {
                return (Vec::new(), Err(OrcasError::Protocol(cat3("unknown proposal `", proposal_id, "`"))));
            },
            Some(k) => k,
        };
        assert(pos_of(old(self).supervisor_proposals@, proposal_id@)->0 == k as int);
        let ghost st = *self;
        let ghost ids = (decision_id@, new_assignment_id@, new_session_id@);
        let wu = self.supervisor_proposals[k].primary_work_unit_id.clone();
        let stale = self.refresh_stale_proposals_for_work_unit(wu.as_str());
        let ghost mid = *self;
        let ghost gapproval = approval;
        assert(stale_marked(st, st.supervisor_proposals@[k as int], mid.supervisor_proposals@[k as int], wu@));
        assert(mid == CollaborationState { supervisor_proposals: mid.supervisor_proposals, ..st });
        assert(refreshed_around(st, mid.supervisor_proposals@, k as int, stale@));
        if self.supervisor_proposals[k].status != SupervisorProposalStatus::Open {
            assert(!open_after_refresh(st, st.supervisor_proposals@[k as int]));
            let r = (stale, Err(OrcasError::Protocol(cat3("proposal `", proposal_id, "` is not open and cannot be approved"))));
            assert(approval_after_refresh(st, mid, *self, k as int, gapproval, reviewed_by, review_note, now, ids.0, ids.1, ids.2, build, r));
            return r;
        }
        let q = self.supervisor_proposals[k].copy();
        assert(open_after_refresh(st, st.supervisor_proposals@[k as int]));
        assert(q == st.supervisor_proposals@[k as int]);
        if q.proposed_decision_type.is_none() {
            let r1: Result<ProposalApproved, OrcasError> = Err(
                OrcasError::Protocol(cat3("proposal `", q.id.as_str(), "` does not contain a model-generated proposal payload")),
            );
            assert(approval_flow(mid, *self, q, gapproval, reviewed_by, review_note, now, ids.0, ids.1, ids.2, build, r1));
            let r = (stale, r1);
                assert(approval_after_refresh(st, mid, *self, k as int, gapproval, reviewed_by, review_note, now, ids.0, ids.1, ids.2, build, r));
                return r;
        }
        let a = match approval {
            Err(e) => {
                let r1: Result<ProposalApproved, OrcasError> = Err(e);
                assert(approval_flow(mid, *self, q, gapproval, reviewed_by, review_note, now, ids.0, ids.1, ids.2, build, r1));
                let r = (stale, r1);
                assert(approval_after_refresh(st, mid, *self, k as int, gapproval, reviewed_by, review_note, now, ids.0, ids.1, ids.2, build, r));
                return r;
            },
            Ok(a) => a,
        };
        let ghost ga = a;
        let ApprovedProposal { decision_type, rationale, requires_assignment, draft, has_edits } = a;
        let (instructions, worker_id, worker_kind, seed) = if requires_assignment {
            match draft {
                None => {
                    let r1: Result<ProposalApproved, OrcasError> = Err(
                        OrcasError::Protocol(owned("approved proposal requires a draft assignment but none was present")),
                    );
                    assert(approval_flow(mid, *self, q, gapproval, reviewed_by, review_note, now, ids.0, ids.1, ids.2, build, r1));
                    let r = (stale, r1);
                assert(approval_after_refresh(st, mid, *self, k as int, gapproval, reviewed_by, review_note, now, ids.0, ids.1, ids.2, build, r));
                return r;
                },
                Some(d) => (Some(d.instructions), d.worker_id, d.worker_kind, Some(d.communication_seed)),
            }
        } else {
            (None, None, None, None)
        };
        let req = DecisionApplyRequest {
            work_unit_id: q.primary_work_unit_id.clone(),
            report_id: Some(q.source_report_id.clone()),
            decision_type,
            rationale,
            instructions,
            worker_id,
            worker_kind,
        };
        assert(req == approval_request(q, ga));
        assert(seed == approval_seed(ga));
        let rd = self.decision_apply(&req, seed, now, decision_id, new_assignment_id, new_session_id, build);
        let ghost dec = *self;
        let ghost grd = rd;
        let o = match rd {
            Err(e) => {
                let r1: Result<ProposalApproved, OrcasError> = Err(e);
                assert(decision_recorded(mid, dec, grd, approval_request(q, ga), approval_seed(ga), now, ids.0, ids.1, ids.2, build));
                assert(approval_flow(mid, *self, q, gapproval, reviewed_by, review_note, now, ids.0, ids.1, ids.2, build, r1));
                let r = (stale, r1);
                assert(approval_after_refresh(st, mid, *self, k as int, gapproval, reviewed_by, review_note, now, ids.0, ids.1, ids.2, build, r));
                return r;
            },
            Ok(o) => o,
        };
        let r1 = self.settle_approval(&q, decision_type, has_edits, o, reviewed_by, review_note, now);
        assert(decision_recorded(mid, dec, grd, approval_request(q, ga), approval_seed(ga), now, ids.0, ids.1, ids.2, build));
        assert(approval_flow(mid, *self, q, gapproval, reviewed_by, review_note, now, ids.0, ids.1, ids.2, build, r1));
        let r = (stale, r1);
        assert(approval_after_refresh(st, mid, *self, k as int, gapproval, reviewed_by, review_note, now, ids.0, ids.1, ids.2, build, r));
        r
    }

    /// Settles an approval after its decision: the proposal's open siblings are superseded (same
    /// report) or go stale (another report), and the proposal's record is approved.
    fn settle_approval(
        &mut self,
        q: &SupervisorProposalRecord,
        decision_type: DecisionType,
        has_edits: bool,
        o: DecisionOutcome,
        reviewed_by: Option<String>,
        review_note: Option<String>,
        now: i64,
    ) -> (r: Result<ProposalApproved, OrcasError>)
        requires
            old(self).wf(),
        ensures
            final(self).wf(),
            approval_settled(*old(self), *final(self), *q, decision_type, has_edits, o, reviewed_by, review_note, now, r),
    {
        let ghost st = *self;
        let ghost pre = self.supervisor_proposals@;
        let mut siblings: Vec<SupervisorProposalRecord> = Vec::new();
        let mut i: usize = 0;
        while i < self.supervisor_proposals.len()
            invariant
                i <= self.supervisor_proposals@.len(),
                self.supervisor_proposals@.len() == pre.len(),
                pre == st.supervisor_proposals@,
                forall|j: int| 0 <= j < i ==> #[trigger] sibling_settled(*q, pre[j], self.supervisor_proposals@[j]),
                forall|j: int| i <= j < pre.len() ==> #[trigger] self.supervisor_proposals@[j] == pre[j],
                forall|x: Seq<char>| #[trigger] pos_of(self.supervisor_proposals@, x) == pos_of(pre, x),
                siblings@ == settled_upto(*q, pre, self.supervisor_proposals@, i as int),
                self.wf(),
                self.workstreams == st.workstreams,
                self.work_units == st.work_units,
                self.workers == st.workers,
                self.worker_sessions == st.worker_sessions,
                self.assignments == st.assignments,
                self.reports == st.reports,
                self.decisions == st.decisions,
                self.assignment_communications == st.assignment_communications,
            decreases self.supervisor_proposals.len() - i,
        {
            let ghost before = self.supervisor_proposals@;
            let sibling = str_eq(self.supervisor_proposals[i].primary_work_unit_id.as_str(), q.primary_work_unit_id.as_str())
                && !str_eq(self.supervisor_proposals[i].id.as_str(), q.id.as_str())
                && self.supervisor_proposals[i].status == SupervisorProposalStatus::Open;
            if sibling {
                let same_source = str_eq(self.supervisor_proposals[i].source_report_id.as_str(), q.source_report_id.as_str());
                let mut p = self.supervisor_proposals.remove(i);
                p.status = if same_source {
                    SupervisorProposalStatus::Superseded
                } else {
                    SupervisorProposalStatus::Stale
                };
                if p.review_note.is_none() {
                    p.review_note = Some(cat3("Proposal `", q.id.as_str(), "` was approved for this work unit."));
                }
                let reported = p.copy();
                self.supervisor_proposals.insert(i, p);
                proof {
                    assert(self.supervisor_proposals@ =~= before.update(i as int, p));
                    lemma_update_keyed(before, i as int, p);
                    lemma_settled_upto_agree(*q, pre, before, self.supervisor_proposals@, i as int);
                }
                siblings.push(reported);
            }
            proof {
                lemma_settled_upto_agree(*q, pre, before, self.supervisor_proposals@, i as int);
                assert(sibling_settled(*q, pre[i as int], self.supervisor_proposals@[i as int]));
            }
            i = i + 1;
        }
        let ghost mid = self.supervisor_proposals@;
        let k = match find(&self.supervisor_proposals, q.id.as_str()) {
            None => {
                return Err(OrcasError::Protocol(cat3("unknown proposal `", q.id.as_str(), "`")));
            },
            Some(k) => k,
        };
        assert(mid[k as int] == pre[k as int]) by {
            lemma_pos_of(mid, k as int);
            assert(!is_open_sibling(*q, pre[k as int]));
            assert(sibling_settled(*q, pre[k as int], mid[k as int]));
        }
        let mut p = self.supervisor_proposals.remove(k);
        p.status = SupervisorProposalStatus::Approved;
        p.approved_decision_type = Some(decision_type);
        p.has_approval_edits = has_edits;
        p.reviewed_at = Some(now);
        p.reviewed_by = Some(match reviewed_by {
            Some(b) => b,
            None => owned("supervisor_cli"),
        });
        p.review_note = review_note;
        p.approved_decision_id = Some(o.decision.id.clone());
        p.approved_assignment_id = match &o.next_assignment {
            Some(x) => Some(x.id.clone()),
            None => None,
        };
        let result = p.copy();
        self.supervisor_proposals.insert(k, p);
        proof {
            assert(self.supervisor_proposals@ =~= mid.update(k as int, p));
            lemma_update_keyed(mid, k as int, p);
            lemma_settled_upto_agree(*q, pre, mid, self.supervisor_proposals@, pre.len() as int);
        }
        Ok(ProposalApproved { proposal: result, siblings, outcome: o })
    }
}

/// A proposal that is not open once its work unit's stale refresh ran (rejected, approved,
/// superseded, stale, or made stale by the refresh) is refused by approval as not open, and the
/// approval changes no decision, assignment, work unit, worker, session or report. In particular
/// a proposal that rejection stored as Rejected is never approved afterwards.
pub proof fn lemma_closed_proposal_refused<F: Fn(&Assignment) -> AssignmentCommunicationRecord>(
    pre: CollaborationState,
    mid: CollaborationState,
    post: CollaborationState,
    k: int,
    approval: Result<ApprovedProposal, OrcasError>,
    reviewed_by: Option<String>,
    review_note: Option<String>,
    now: i64,
    decision_id: Seq<char>,
    new_assignment_id: Seq<char>,
    new_session_id: Seq<char>,
    build: &F,
    r: (Vec<SupervisorProposalRecord>, Result<ProposalApproved, OrcasError>),
)
    requires
        0 <= k < pre.supervisor_proposals@.len(),
        !open_after_refresh(pre, pre.supervisor_proposals@[k]),
        approval_after_refresh(pre, mid, post, k, approval, reviewed_by, review_note, now, decision_id, new_assignment_id, new_session_id, build, r),
    ensures
        r.1 is Err,
        r.1->Err_0@ == OrcasErrorView::Protocol(
            "proposal `"@ + pre.supervisor_proposals@[k].id@ + "` is not open and cannot be approved"@,
        ),
        post.decisions == pre.decisions,
        post.assignments == pre.assignments,
        post.work_units == pre.work_units,
        post.workers == pre.workers,
        post.worker_sessions == pre.worker_sessions,
        post.reports == pre.reports,
{
}

} // verus!
