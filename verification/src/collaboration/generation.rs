use vstd::prelude::*;

use super::keyed::{find, get, keys_unique, lemma_pos_of, lemma_update_keyed, pos_of, upsert, upserted, Keyed};
use super::proposals::{stale_marked_all, stale_reason, stale_refreshed};
use super::seeds::opt_view;
use super::types::{
    CollaborationState, DecisionType, Report, SupervisorProposalFailure, SupervisorProposalFailureStage,
    SupervisorProposalRecord, SupervisorProposalStatus,
};
use crate::model::{OrcasError, OrcasErrorView, WorkUnitStatus};
use crate::text::{cat2, cat3, cat5, owned, str_eq};

verus! {

/// How a request to generate a proposal treats proposals already made for the same report.
#[derive(Debug, Clone, Copy, PartialEq, Eq, Structural)]
pub enum ProposalDuplicatePolicy {
    /// An operator asked; with `supersede_open`, open proposals for the report are superseded,
    /// else one refuses the request.
    Manual { supersede_open: bool },
    /// A report was recorded; any proposal for the report suppresses the request.
    Auto,
}

/// Whether a proposal generation may go on.
#[derive(Debug)]
pub enum GenerationPrep {
    /// It may, for this source report.
    Ready { source_report_id: String },
    /// It is skipped, for this reason.
    Suppressed { reason: String },
}

/// `GenerationPrep` as plain text.
pub ghost enum GenerationPrepView {
    Ready(Seq<char>),
    Suppressed(Seq<char>),
}

impl GenerationPrep {
    pub open spec fn view(&self) -> GenerationPrepView {
        match self {
            GenerationPrep::Ready { source_report_id } => GenerationPrepView::Ready(source_report_id@),
            GenerationPrep::Suppressed { reason } => GenerationPrepView::Suppressed(reason@),
        }
    }
}

/// A refusal, or a suppression when the request only asks to skip ineligible work.
pub open spec fn refuse_or_skip(suppress: bool, reason: Seq<char>) -> Result<GenerationPrepView, OrcasErrorView> {
    if suppress {
        Ok(GenerationPrepView::Suppressed(reason))
    } else {
        Err(OrcasErrorView::Protocol(reason))
    }
}

/// Whether a proposal may be generated for a work unit, and from which report: the unit must
/// await a decision with no live attachable turn, and the report (the one named, else the unit's
/// latest) must be its latest and belong to its current assignment.
pub open spec fn generation_prep(
    st: CollaborationState,
    work_unit_id: Seq<char>,
    source_report_id: Option<Seq<char>>,
    suppress: bool,
    live_turn: bool,
) -> Result<GenerationPrepView, OrcasErrorView> {
    match get(st.work_units@, work_unit_id) {
        None => Err(OrcasErrorView::Protocol("unknown work unit `"@ + work_unit_id + "`"@)),
        Some(w) => if w.status != WorkUnitStatus::AwaitingDecision {
            refuse_or_skip(suppress, "work unit `"@ + work_unit_id + "` is not awaiting_decision"@)
        } else if live_turn {
            refuse_or_skip(
                suppress,
                "supervisor proposal generation is blocked while the work unit still has a live attachable turn"@,
            )
        } else {
            let resolved = if source_report_id is Some { source_report_id } else { opt_view(w.latest_report_id) };
            match resolved {
                None => Err(OrcasErrorView::Protocol(if suppress {
                    "auto proposal generation found no latest report for work unit `"@ + work_unit_id + "`"@
                } else {
                    "work unit `"@ + work_unit_id + "` has no latest report"@
                })),
                Some(src) => if opt_view(w.latest_report_id) != Some(src) {
                    refuse_or_skip(suppress, "proposal generation requires the latest report for the work unit"@)
                } else {
                    match get(st.reports@, src) {
                        None => Err(OrcasErrorView::Protocol("unknown source report `"@ + src + "`"@)),
                        Some(rep) => if opt_view(w.current_assignment_id) != Some(rep.assignment_id@) {
                            refuse_or_skip(
                                suppress,
                                "proposal generation requires the source report assignment to remain the current assignment"@,
                            )
                        } else {
                            Ok(GenerationPrepView::Ready(src))
                        },
                    }
                },
            }
        },
    }
}

/// The view of a preparation's result.
pub open spec fn prep_view(r: Result<GenerationPrep, OrcasError>) -> Result<GenerationPrepView, OrcasErrorView> {
    match r {
        Ok(p) => Ok(p@),
        Err(e) => Err(e@),
    }
}

/// Whether a proposal is for a work unit and source report.
pub open spec fn same_source(p: SupervisorProposalRecord, work_unit_id: Seq<char>, source_report_id: Seq<char>) -> bool {
    p.primary_work_unit_id@ == work_unit_id && p.source_report_id@ == source_report_id
}

/// Whether some proposal is for a work unit and source report (and open, with `open_only`).
pub open spec fn has_same_source(
    ps: Seq<SupervisorProposalRecord>,
    work_unit_id: Seq<char>,
    source_report_id: Seq<char>,
    open_only: bool,
) -> bool {
    exists|j: int|
        0 <= j < ps.len() && #[trigger] same_source(ps[j], work_unit_id, source_report_id)
            && (open_only ==> ps[j].status == SupervisorProposalStatus::Open)
}

/// The text naming a work unit and source report in duplicate messages.
pub open spec fn pair_text(work_unit_id: Seq<char>, source_report_id: Seq<char>) -> Seq<char> {
    "work unit `"@ + work_unit_id + "` and source report `"@ + source_report_id + "`"@
}

/// What the duplicate policy says before a proposal is generated: refused, skipped for a reason,
/// or let through.
pub open spec fn duplicate_check(
    ps: Seq<SupervisorProposalRecord>,
    work_unit_id: Seq<char>,
    source_report_id: Seq<char>,
    policy: ProposalDuplicatePolicy,
) -> Result<Option<Seq<char>>, OrcasErrorView> {
    match policy {
        ProposalDuplicatePolicy::Manual { supersede_open } => if !supersede_open
            && has_same_source(ps, work_unit_id, source_report_id, true) {
            Err(OrcasErrorView::Protocol("an open proposal already exists for "@ + pair_text(work_unit_id, source_report_id)))
        } else {
            Ok(None)
        },
        ProposalDuplicatePolicy::Auto => if has_same_source(ps, work_unit_id, source_report_id, false) {
            Ok(Some("proposal generation already exists for "@ + pair_text(work_unit_id, source_report_id)))
        } else {
            Ok(None)
        },
    }
}

/// The view of a duplicate check's result.
pub open spec fn check_view(r: Result<Option<String>, OrcasError>) -> Result<Option<Seq<char>>, OrcasErrorView> {
    match r {
        Ok(o) => Ok(opt_view(o)),
        Err(e) => Err(e@),
    }
}

/// Whether a generated proposal is superseded by a re-synthesis: an open proposal for the same
/// work unit and report.
pub open spec fn superseded_by(p: SupervisorProposalRecord, q: SupervisorProposalRecord) -> bool {
    same_source(p, q.primary_work_unit_id@, q.source_report_id@) && p.status == SupervisorProposalStatus::Open
}

/// A proposal after a re-synthesis for `q`'s report: superseded when `superseded_by` says, with a
/// note unless it has one; else unchanged.
pub open spec fn resynthesis_marked(q: SupervisorProposalRecord, pre: SupervisorProposalRecord, post: SupervisorProposalRecord) -> bool {
    if superseded_by(pre, q) {
        &&& post == SupervisorProposalRecord { status: SupervisorProposalStatus::Superseded, review_note: post.review_note, ..pre }
        &&& pre.review_note is Some ==> post.review_note == pre.review_note
        &&& pre.review_note is None ==> post.review_note is Some
            && post.review_note->0@ == "Superseded by an operator-requested re-synthesis for the same report."@
    } else {
        post == pre
    }
}

/// The superseded proposals among the first `n`, as marked, in order.
pub open spec fn superseded_upto(
    q: SupervisorProposalRecord,
    pre: Seq<SupervisorProposalRecord>,
    post: Seq<SupervisorProposalRecord>,
    n: int,
) -> Seq<SupervisorProposalRecord>
    decreases n,
{
    if n <= 0 {
        Seq::empty()
    } else {
        superseded_upto(q, pre, post, n - 1) + if superseded_by(pre[n - 1], q) {
            seq![post[n - 1]]
        } else {
            Seq::empty()
        }
    }
}

proof fn lemma_superseded_upto_agree(
    q: SupervisorProposalRecord,
    pre: Seq<SupervisorProposalRecord>,
    p1: Seq<SupervisorProposalRecord>,
    p2: Seq<SupervisorProposalRecord>,
    n: int,
)
    requires
        n <= pre.len(),
        n <= p1.len(),
        n <= p2.len(),
        forall|j: int| 0 <= j < n && superseded_by(pre[j], q) ==> p1[j] == p2[j],
    ensures
        superseded_upto(q, pre, p1, n) == superseded_upto(q, pre, p2, n),
    decreases n,
{
    if n > 0 {
        lemma_superseded_upto_agree(q, pre, p1, p2, n - 1);
    }
}

/// What persisting a generated proposal produced.
#[derive(Debug)]
pub enum GenerationPersisted {
    /// The proposal was stored, with the proposals it superseded.
    Created { proposal: SupervisorProposalRecord, superseded: Vec<SupervisorProposalRecord> },
    /// It was dropped: another proposal for its report appeared meanwhile.
    Suppressed { reason: String },
}

/// A generated proposal as it is stored: stale, with the reason noted, if it no longer fits the
/// state; else as generated.
pub open spec fn checked_before_persist(st: CollaborationState, p: SupervisorProposalRecord, q: SupervisorProposalRecord) -> bool {
    match stale_reason(st, p) {
        Some(reason) => {
            &&& q == SupervisorProposalRecord { status: SupervisorProposalStatus::Stale, review_note: q.review_note, ..p }
            &&& q.review_note is Some
            &&& q.review_note->0@ == "Proposal became stale before persistence: "@ + reason
        },
        None => q == p,
    }
}

/// What persisting a generated proposal `p` did, given the proposal `q` as checked for
/// staleness: an open one is checked against the duplicate policy (refused, superseding, or
/// dropped), and the proposal stored unless refused or dropped.
pub open spec fn generation_persisted(
    pre: CollaborationState,
    post: CollaborationState,
    q: SupervisorProposalRecord,
    policy: ProposalDuplicatePolicy,
    r: Result<GenerationPersisted, OrcasError>,
) -> bool {
    let ps = pre.supervisor_proposals@;
    let wu = q.primary_work_unit_id@;
    let src = q.source_report_id@;
    &&& post.workstreams == pre.workstreams
    &&& post.work_units == pre.work_units
    &&& post.workers == pre.workers
    &&& post.worker_sessions == pre.worker_sessions
    &&& post.assignments == pre.assignments
    &&& post.reports == pre.reports
    &&& post.decisions == pre.decisions
    &&& post.assignment_communications == pre.assignment_communications
    &&& if q.status != SupervisorProposalStatus::Open {
        &&& post.supervisor_proposals@ == upserted(ps, q)
        &&& r is Ok
        &&& r->Ok_0 matches GenerationPersisted::Created { proposal, superseded }
            && proposal == q && superseded@.len() == 0
    } else {
        match policy {
            ProposalDuplicatePolicy::Manual { supersede_open } => if !supersede_open {
                if has_same_source(ps, wu, src, true) {
                    &&& r is Err
                    &&& r->Err_0@ == OrcasErrorView::Protocol("an open proposal already exists for "@ + pair_text(wu, src))
                    &&& post.supervisor_proposals == pre.supervisor_proposals
                } else {
                    &&& post.supervisor_proposals@ == upserted(ps, q)
                    &&& r is Ok
                    &&& r->Ok_0 matches GenerationPersisted::Created { proposal, superseded }
                        && proposal == q && superseded@.len() == 0
                }
            } else {
                exists|marked: Seq<SupervisorProposalRecord>| {
                    &&& marked.len() == ps.len()
                    &&& forall|j: int| 0 <= j < ps.len() ==> #[trigger] resynthesis_marked(q, ps[j], marked[j])
                    &&& #[trigger] upserted(marked, q) == post.supervisor_proposals@
                    &&& r is Ok
                    &&& r->Ok_0 matches GenerationPersisted::Created { proposal, superseded }
                        && proposal == q && superseded@ == superseded_upto(q, ps, marked, ps.len() as int)
                }
            },
            ProposalDuplicatePolicy::Auto => if has_same_source(ps, wu, src, false) {
                &&& r is Ok
                &&& r->Ok_0 matches GenerationPersisted::Suppressed { reason }
                    && reason@ == "proposal generation raced with an existing proposal for "@ + pair_text(wu, src)
                &&& post.supervisor_proposals == pre.supervisor_proposals
            } else {
                &&& post.supervisor_proposals@ == upserted(ps, q)
                &&& r is Ok
                &&& r->Ok_0 matches GenerationPersisted::Created { proposal, superseded }
                    && proposal == q && superseded@.len() == 0
            },
        }
    }
}

/// The error a failed generation is answered with: a transport error when the backend failed (or
/// the stage is unknown), a protocol error otherwise, naming the proposal and the failure.
pub open spec fn failure_error(p: SupervisorProposalRecord) -> OrcasErrorView {
    let detail = if p.generation_failure is Some {
        p.generation_failure->0.message@
    } else {
        "unknown supervisor proposal generation failure"@
    };
    let message = "supervisor proposal generation failed; inspect proposal `"@ + p.id@ + "` for details: "@ + detail;
    if p.generation_failure is None || p.generation_failure->0.stage == SupervisorProposalFailureStage::Backend {
        OrcasErrorView::Transport(message)
    } else {
        OrcasErrorView::Protocol(message)
    }
}

/// The error a failed generation is answered with.
pub fn proposal_generation_failure_error(record: &SupervisorProposalRecord) -> (r: OrcasError)
    ensures
        r@ == failure_error(*record),
{
    let detail: &str = match &record.generation_failure {
        Some(f) => f.message.as_str(),
        None => "unknown supervisor proposal generation failure",
    };
    let message = cat5(
        "supervisor proposal generation failed; inspect proposal `",
        record.id.as_str(),
        "` for details: ",
        detail,
        "",
    );
    proof {
        reveal_strlit("");
        assert(message@ =~= "supervisor proposal generation failed; inspect proposal `"@ + record.id@ + "` for details: "@ + detail@);
    }
    match &record.generation_failure {
        None => OrcasError::Transport(message),
        Some(f) => match f.stage {
            SupervisorProposalFailureStage::Backend => OrcasError::Transport(message),
            _ => OrcasError::Protocol(message),
        },
    }
}

/// Whether some proposal of a table is for a work unit and source report (and open, with
/// `open_only`).
fn any_same_source(ps: &Vec<SupervisorProposalRecord>, work_unit_id: &str, source_report_id: &str, open_only: bool) -> (r: bool)
    ensures
        r == has_same_source(ps@, work_unit_id@, source_report_id@, open_only),
{
    let mut i: usize = 0;
    while i < ps.len()
        invariant
            i <= ps@.len(),
            forall|j: int| 0 <= j < i ==> !(#[trigger] same_source(ps@[j], work_unit_id@, source_report_id@)
                && (open_only ==> ps@[j].status == SupervisorProposalStatus::Open)),
        decreases ps.len() - i,
    {
        if str_eq(ps[i].primary_work_unit_id.as_str(), work_unit_id)
            && str_eq(ps[i].source_report_id.as_str(), source_report_id)
            && (!open_only || ps[i].status == SupervisorProposalStatus::Open) {
            assert(same_source(ps@[i as int], work_unit_id@, source_report_id@));
            return true;
        }
        i = i + 1;
    }
    false
}

impl CollaborationState {
    /// Prepares a proposal generation for a work unit: runs the stale refresh for the unit, then
    /// decides whether generation may go on and from which report. With `suppress_ineligible`
    /// an ineligible unit is skipped rather than refused; `live_turn` says whether the unit still
    /// has a live attachable turn. Returns the proposals marked stale, and the decision.
    pub fn prepare_proposal_generation(
        &mut self,
        work_unit_id: &str,
        source_report_id: Option<&str>,
        suppress_ineligible: bool,
        live_turn: bool,
    ) -> (r: (Vec<SupervisorProposalRecord>, Result<GenerationPrep, OrcasError>))
        requires
            old(self).wf(),
        ensures
            final(self).wf(),
            stale_refreshed(*old(self), old(self).supervisor_proposals@, final(self).supervisor_proposals@, work_unit_id@, r.0@),
            *final(self) == (CollaborationState { supervisor_proposals: final(self).supervisor_proposals, ..*old(self) }),
            prep_view(r.1) == generation_prep(
                *old(self),
                work_unit_id@,
                match source_report_id { Some(s) => Some(s@), None => None },
                suppress_ineligible,
                live_turn,
            ),
    {
        let stale = self.refresh_stale_proposals_for_work_unit(work_unit_id);
        let r = self.generation_readiness(work_unit_id, source_report_id, suppress_ineligible, live_turn);
        (stale, r)
    }

    /// Whether a proposal may be generated for a work unit, and from which report.
    fn generation_readiness(
        &self,
        work_unit_id: &str,
        source_report_id: Option<&str>,
        suppress: bool,
        live_turn: bool,
    ) -> (r: Result<GenerationPrep, OrcasError>)
        requires
            self.wf(),
        ensures
            prep_view(r) == generation_prep(
                *self,
                work_unit_id@,
                match source_report_id { Some(s) => Some(s@), None => None },
                suppress,
                live_turn,
            ),
    {
        let wi = match find(&self.work_units, work_unit_id) {
            None => {
                return Err(OrcasError::Protocol(cat3("unknown work unit `", work_unit_id, "`")));
            },
            Some(i) => i,
        };
        let w = &self.work_units[wi];
        if w.status != WorkUnitStatus::AwaitingDecision {
            let reason = cat3("work unit `", work_unit_id, "` is not awaiting_decision");
            return if suppress {
                Ok(GenerationPrep::Suppressed { reason })
            } else {
                Err(OrcasError::Protocol(reason))
            };
        }
        if live_turn {
            let reason = owned("supervisor proposal generation is blocked while the work unit still has a live attachable turn");
            return if suppress {
                Ok(GenerationPrep::Suppressed { reason })
            } else {
                Err(OrcasError::Protocol(reason))
            };
        }
        let resolved: &str = match source_report_id {
            Some(s) => s,
            None => match &w.latest_report_id {
                Some(l) => l.as_str(),
                None => {
                    return Err(OrcasError::Protocol(if suppress {
                        cat3("auto proposal generation found no latest report for work unit `", work_unit_id, "`")
                    } else {
                        cat3("work unit `", work_unit_id, "` has no latest report")
                    }));
                },
            },
        };
        let is_latest = match &w.latest_report_id {
            Some(l) => str_eq(l.as_str(), resolved),
            None => false,
        };
        if !is_latest {
            let reason = owned("proposal generation requires the latest report for the work unit");
            return if suppress {
                Ok(GenerationPrep::Suppressed { reason })
            } else {
                Err(OrcasError::Protocol(reason))
            };
        }
        let ri = match find(&self.reports, resolved) {
            None => {
                return Err(OrcasError::Protocol(cat3("unknown source report `", resolved, "`")));
            },
            Some(k) => k,
        };
        let current = match &w.current_assignment_id {
            Some(c) => str_eq(c.as_str(), self.reports[ri].assignment_id.as_str()),
            None => false,
        };
        if !current {
            let reason = owned("proposal generation requires the source report assignment to remain the current assignment");
            return if suppress {
                Ok(GenerationPrep::Suppressed { reason })
            } else {
                Err(OrcasError::Protocol(reason))
            };
        }
        Ok(GenerationPrep::Ready { source_report_id: owned(resolved) })
    }

    /// What the duplicate policy says before a proposal is generated for a work unit and report:
    /// refused, skipped for the reason returned, or let through (`None`).
    pub fn check_duplicate_proposals(
        &self,
        work_unit_id: &str,
        source_report_id: &str,
        policy: ProposalDuplicatePolicy,
    ) -> (r: Result<Option<String>, OrcasError>)
        ensures
            check_view(r) == duplicate_check(self.supervisor_proposals@, work_unit_id@, source_report_id@, policy),
    {
        match policy {
            ProposalDuplicatePolicy::Manual { supersede_open } => {
                if !supersede_open && any_same_source(&self.supervisor_proposals, work_unit_id, source_report_id, true) {
                    Err(OrcasError::Protocol(pair_message("an open proposal already exists for ", work_unit_id, source_report_id)))
                } else {
                    Ok(None)
                }
            },
            ProposalDuplicatePolicy::Auto => {
                if any_same_source(&self.supervisor_proposals, work_unit_id, source_report_id, false) {
                    Ok(Some(pair_message("proposal generation already exists for ", work_unit_id, source_report_id)))
                } else {
                    Ok(None)
                }
            },
        }
    }

    /// Stores a proposal, replacing one with the same id.
    pub fn record_proposal(&mut self, record: SupervisorProposalRecord)
        requires
            old(self).wf(),
        ensures
            final(self).wf(),
            final(self).supervisor_proposals@ == upserted(old(self).supervisor_proposals@, record),
            *final(self) == (CollaborationState { supervisor_proposals: final(self).supervisor_proposals, ..*old(self) }),
    {
        upsert(&mut self.supervisor_proposals, record);
    }

    /// Persists a freshly generated proposal: it is marked stale if it no longer fits the state;
    /// an open one is then checked against the duplicate policy, superseding open proposals for
    /// its report on a re-synthesis; and it is stored unless refused or dropped.
    pub fn persist_generated_proposal(
        &mut self,
        proposal: SupervisorProposalRecord,
        policy: ProposalDuplicatePolicy,
    ) -> (r: Result<GenerationPersisted, OrcasError>)
        requires
            old(self).wf(),
        ensures
            final(self).wf(),
            exists|q: SupervisorProposalRecord| {
                &&& #[trigger] checked_before_persist(*old(self), proposal, q)
                &&& generation_persisted(*old(self), *final(self), q, policy, r)
            },
    {
        let ghost st = *self;
        let ghost p0 = proposal;
        let mut proposal = proposal;
        match self.proposal_stale_reason(&proposal) {
            Some(reason) => {
                proposal.status = SupervisorProposalStatus::Stale;
                proposal.review_note = Some(cat2("Proposal became stale before persistence: ", reason.as_str()));
            },
            None => {},
        }
        assert(checked_before_persist(st, p0, proposal));
        let ghost q = proposal;
        if proposal.status != SupervisorProposalStatus::Open {
            let stored = proposal.copy();
            upsert(&mut self.supervisor_proposals, stored);
            return Ok(GenerationPersisted::Created { proposal, superseded: Vec::new() });
        }
        match policy {
            ProposalDuplicatePolicy::Manual { supersede_open } => {
                if !supersede_open {
                    if any_same_source(&self.supervisor_proposals, proposal.primary_work_unit_id.as_str(), proposal.source_report_id.as_str(), true) {
                        return Err(OrcasError::Protocol(pair_message(
                            "an open proposal already exists for ",
                            proposal.primary_work_unit_id.as_str(),
                            proposal.source_report_id.as_str(),
                        )));
                    }
                    let stored = proposal.copy();
                    upsert(&mut self.supervisor_proposals, stored);
                    Ok(GenerationPersisted::Created { proposal, superseded: Vec::new() })
                } else {
                    let superseded = self.supersede_for_resynthesis(&proposal);
                    let ghost marked = self.supervisor_proposals@;
                    let stored = proposal.copy();
                    upsert(&mut self.supervisor_proposals, stored);
                    assert(upserted(marked, q) == self.supervisor_proposals@);
                    Ok(GenerationPersisted::Created { proposal, superseded })
                }
            },
            ProposalDuplicatePolicy::Auto => {
                if any_same_source(&self.supervisor_proposals, proposal.primary_work_unit_id.as_str(), proposal.source_report_id.as_str(), false) {
                    return Ok(GenerationPersisted::Suppressed {
                        reason: pair_message(
                            "proposal generation raced with an existing proposal for ",
                            proposal.primary_work_unit_id.as_str(),
                            proposal.source_report_id.as_str(),
                        ),
                    });
                }
                let stored = proposal.copy();
                upsert(&mut self.supervisor_proposals, stored);
                Ok(GenerationPersisted::Created { proposal, superseded: Vec::new() })
            },
        }
    }

    /// Supersedes the open proposals for the work unit and report of `q`, noting why unless they
    /// have a note; returns them as marked.
    fn supersede_for_resynthesis(&mut self, q: &SupervisorProposalRecord) -> (r: Vec<SupervisorProposalRecord>)
        requires
            old(self).wf(),
        ensures
            final(self).wf(),
            final(self).supervisor_proposals@.len() == old(self).supervisor_proposals@.len(),
            forall|j: int| 0 <= j < old(self).supervisor_proposals@.len() ==> #[trigger] resynthesis_marked(
                *q, old(self).supervisor_proposals@[j], final(self).supervisor_proposals@[j]),
            r@ == superseded_upto(*q, old(self).supervisor_proposals@, final(self).supervisor_proposals@, old(self).supervisor_proposals@.len() as int),
            *final(self) == (CollaborationState { supervisor_proposals: final(self).supervisor_proposals, ..*old(self) }),
    {
        let ghost st = *self;
        let ghost pre = self.supervisor_proposals@;
        let mut marked: Vec<SupervisorProposalRecord> = Vec::new();
        let mut i: usize = 0;
        while i < self.supervisor_proposals.len()
            invariant
                i <= self.supervisor_proposals@.len(),
                self.supervisor_proposals@.len() == pre.len(),
                pre == st.supervisor_proposals@,
                forall|j: int| 0 <= j < i ==> #[trigger] resynthesis_marked(*q, pre[j], self.supervisor_proposals@[j]),
                forall|j: int| i <= j < pre.len() ==> #[trigger] self.supervisor_proposals@[j] == pre[j],
                marked@ == superseded_upto(*q, pre, self.supervisor_proposals@, i as int),
                self.wf(),
                *self == (CollaborationState { supervisor_proposals: self.supervisor_proposals, ..st }),
            decreases self.supervisor_proposals.len() - i,
        {
            let ghost before = self.supervisor_proposals@;
            let hit = str_eq(self.supervisor_proposals[i].primary_work_unit_id.as_str(), q.primary_work_unit_id.as_str())
                && str_eq(self.supervisor_proposals[i].source_report_id.as_str(), q.source_report_id.as_str())
                && self.supervisor_proposals[i].status == SupervisorProposalStatus::Open;
            if hit {
                let mut p = self.supervisor_proposals.remove(i);
                p.status = SupervisorProposalStatus::Superseded;
                if p.review_note.is_none() {
                    p.review_note = Some(owned("Superseded by an operator-requested re-synthesis for the same report."));
                }
                let reported = p.copy();
                self.supervisor_proposals.insert(i, p);
                proof {
                    assert(self.supervisor_proposals@ =~= before.update(i as int, p));
                    lemma_update_keyed(before, i as int, p);
                }
                marked.push(reported);
            }
            proof {
                lemma_superseded_upto_agree(*q, pre, before, self.supervisor_proposals@, i as int);
                assert(resynthesis_marked(*q, pre[i as int], self.supervisor_proposals@[i as int]));
            }
            i = i + 1;
        }
        marked
    }
}

/// A message ending in the work unit and source report it is about.
fn pair_message(prefix: &str, work_unit_id: &str, source_report_id: &str) -> (r: String)
    ensures
        r@ == prefix@ + pair_text(work_unit_id@, source_report_id@),
{
    let head = cat3(prefix, "work unit `", work_unit_id);
    let r = cat5(head.as_str(), "` and source report `", source_report_id, "`", "");
    proof {
        reveal_strlit("");
        assert(r@ =~= prefix@ + pair_text(work_unit_id@, source_report_id@));
    }
    r
}

/// The record of a proposal whose generation failed at `now`: its generation failed with
/// `failure`, it keeps the decision type of whatever proposal the reasoner gave (none when it
/// gave none), and it has no approval, edits or review.
pub open spec fn failed_record(
    id: String,
    workstream_id: String,
    primary_work_unit_id: String,
    source_report_id: String,
    reasoner_model: String,
    proposed_decision_type: Option<DecisionType>,
    failure: SupervisorProposalFailure,
    now: i64,
) -> SupervisorProposalRecord {
    SupervisorProposalRecord {
        id,
        workstream_id,
        primary_work_unit_id,
        source_report_id,
        status: SupervisorProposalStatus::GenerationFailed,
        created_at: now,
        reasoner_model,
        proposed_decision_type,
        approved_decision_type: None,
        has_approval_edits: false,
        generation_failure: Some(failure),
        reviewed_at: None,
        reviewed_by: None,
        review_note: None,
        approved_decision_id: None,
        approved_assignment_id: None,
    }
}

impl CollaborationState {
    /// Stores the record of a failed proposal generation, as `failed_record` says, replacing a
    /// record with the same id, and returns it.
    pub fn persist_failed_proposal_record(
        &mut self,
        id: String,
        workstream_id: String,
        primary_work_unit_id: String,
        source_report_id: String,
        reasoner_model: String,
        proposed_decision_type: Option<DecisionType>,
        failure: SupervisorProposalFailure,
        now: i64,
    ) -> (r: SupervisorProposalRecord)
        requires
            old(self).wf(),
        ensures
            final(self).wf(),
            r == failed_record(id, workstream_id, primary_work_unit_id, source_report_id, reasoner_model, proposed_decision_type, failure, now),
            final(self).supervisor_proposals@ == upserted(old(self).supervisor_proposals@, r),
            *final(self) == (CollaborationState { supervisor_proposals: final(self).supervisor_proposals, ..*old(self) }),
    {
        let record = SupervisorProposalRecord {
            id,
            workstream_id,
            primary_work_unit_id,
            source_report_id,
            status: SupervisorProposalStatus::GenerationFailed,
            created_at: now,
            reasoner_model,
            proposed_decision_type,
            approved_decision_type: None,
            has_approval_edits: false,
            generation_failure: Some(failure),
            reviewed_at: None,
            reviewed_by: None,
            review_note: None,
            approved_decision_id: None,
            approved_assignment_id: None,
        };
        let out = record.copy();
        upsert(&mut self.supervisor_proposals, record);
        out
    }
}

impl CollaborationState {
    /// A generation that failed (the reasoner's backend, or the validation of what it gave):
    /// the failed record is stored as `persist_failed_proposal_record` stores it, and the
    /// generation is answered with the error `proposal_generation_failure_error` gives for it.
    pub fn fail_proposal_generation(
        &mut self,
        id: String,
        workstream_id: String,
        primary_work_unit_id: String,
        source_report_id: String,
        reasoner_model: String,
        proposed_decision_type: Option<DecisionType>,
        failure: SupervisorProposalFailure,
        now: i64,
    ) -> (r: (SupervisorProposalRecord, OrcasError))
        requires
            old(self).wf(),
        ensures
            final(self).wf(),
            r.0 == failed_record(id, workstream_id, primary_work_unit_id, source_report_id, reasoner_model, proposed_decision_type, failure, now),
            r.1@ == failure_error(r.0),
            final(self).supervisor_proposals@ == upserted(old(self).supervisor_proposals@, r.0),
            *final(self) == (CollaborationState { supervisor_proposals: final(self).supervisor_proposals, ..*old(self) }),
    {
        let record = self.persist_failed_proposal_record(
            id,
            workstream_id,
            primary_work_unit_id,
            source_report_id,
            reasoner_model,
            proposed_decision_type,
            failure,
            now,
        );
        let e = proposal_generation_failure_error(&record);
        (record, e)
    }
}

/// The first step of generating a proposal, taken before the reasoner is asked.
#[derive(Debug)]
pub enum GenerationStart {
    /// Ask the reasoner for a proposal on this source report.
    AskReasoner { source_report_id: String },
    /// Nothing is generated, for this reason.
    Suppressed { reason: String },
    /// The request is refused.
    Refused(OrcasError),
}

/// `GenerationStart` as plain values.
pub ghost enum GenerationStartView {
    AskReasoner(Seq<char>),
    Suppressed(Seq<char>),
    Refused(OrcasErrorView),
}

impl GenerationStart {
    pub open spec fn view(&self) -> GenerationStartView {
        match self {
            GenerationStart::AskReasoner { source_report_id } => GenerationStartView::AskReasoner(source_report_id@),
            GenerationStart::Suppressed { reason } => GenerationStartView::Suppressed(reason@),
            GenerationStart::Refused(e) => GenerationStartView::Refused(e@),
        }
    }
}

/// How a generation starts: the unit's readiness over the state `st` (an automatic request skips
/// an ineligible unit rather than refusing it), then the duplicate policy over the proposals
/// `ps` left by the stale refresh. The reasoner is asked only when both let it through.
pub open spec fn generation_start(
    st: CollaborationState,
    ps: Seq<SupervisorProposalRecord>,
    work_unit_id: Seq<char>,
    source_report_id: Option<Seq<char>>,
    policy: ProposalDuplicatePolicy,
    live_turn: bool,
) -> GenerationStartView {
    match generation_prep(st, work_unit_id, source_report_id, policy is Auto, live_turn) {
        Err(e) => GenerationStartView::Refused(e),
        Ok(GenerationPrepView::Suppressed(reason)) => GenerationStartView::Suppressed(reason),
        Ok(GenerationPrepView::Ready(src)) => match duplicate_check(ps, work_unit_id, src, policy) {
            Err(e) => GenerationStartView::Refused(e),
            Ok(Some(reason)) => GenerationStartView::Suppressed(reason),
            Ok(None) => GenerationStartView::AskReasoner(src),
        },
    }
}

/// What the reasoner gave back for a generation.
#[derive(Debug)]
pub enum GenerationReply {
    /// A proposal, validated, as it would be stored.
    Generated(SupervisorProposalRecord),
    /// The generation failed: the backend failed or its proposal did not validate.
    Failed {
        id: String,
        workstream_id: String,
        primary_work_unit_id: String,
        source_report_id: String,
        reasoner_model: String,
        proposed_decision_type: Option<DecisionType>,
        failure: SupervisorProposalFailure,
        now: i64,
    },
}

impl CollaborationState {
    /// Starts a proposal generation: the stale refresh for the work unit, then its readiness and
    /// the duplicate policy, in that order. Returns the proposals the refresh marked stale, and
    /// whether to ask the reasoner.
    pub fn begin_proposal_generation(
        &mut self,
        work_unit_id: &str,
        source_report_id: Option<&str>,
        policy: ProposalDuplicatePolicy,
        live_turn: bool,
    ) -> (r: (Vec<SupervisorProposalRecord>, GenerationStart))
        requires
            old(self).wf(),
        ensures
            final(self).wf(),
            stale_refreshed(*old(self), old(self).supervisor_proposals@, final(self).supervisor_proposals@, work_unit_id@, r.0@),
            *final(self) == (CollaborationState { supervisor_proposals: final(self).supervisor_proposals, ..*old(self) }),
            r.1@ == generation_start(
                *old(self),
                final(self).supervisor_proposals@,
                work_unit_id@,
                match source_report_id { Some(s) => Some(s@), None => None },
                policy,
                live_turn,
            ),
    {
        let auto = match policy {
            ProposalDuplicatePolicy::Auto => true,
            ProposalDuplicatePolicy::Manual { .. } => false,
        };
        let (stale, prep) = self.prepare_proposal_generation(work_unit_id, source_report_id, auto, live_turn);
        let start = match prep {
            Err(e) => GenerationStart::Refused(e),
            Ok(GenerationPrep::Suppressed { reason }) => GenerationStart::Suppressed { reason },
            Ok(GenerationPrep::Ready { source_report_id: src }) => {
                match self.check_duplicate_proposals(work_unit_id, src.as_str(), policy) {
                    Err(e) => GenerationStart::Refused(e),
                    Ok(Some(reason)) => GenerationStart::Suppressed { reason },
                    Ok(None) => GenerationStart::AskReasoner { source_report_id: src },
                }
            },
        };
        (stale, start)
    }

    /// Finishes a proposal generation with what the reasoner gave back: a proposal is persisted
    /// as `persist_generated_proposal` persists it; a failure is recorded as
    /// `fail_proposal_generation` records it and answered with its error.
    pub fn finish_proposal_generation(
        &mut self,
        reply: GenerationReply,
        policy: ProposalDuplicatePolicy,
    ) -> (r: Result<GenerationPersisted, OrcasError>)
        requires
            old(self).wf(),
        ensures
            final(self).wf(),
            match reply {
                GenerationReply::Generated(p) => exists|q: SupervisorProposalRecord| {
                    &&& #[trigger] checked_before_persist(*old(self), p, q)
                    &&& generation_persisted(*old(self), *final(self), q, policy, r)
                },
                GenerationReply::Failed {
                    id, workstream_id, primary_work_unit_id, source_report_id, reasoner_model, proposed_decision_type, failure, now,
                } => {
                    let rec = failed_record(
                        id, workstream_id, primary_work_unit_id, source_report_id, reasoner_model, proposed_decision_type, failure, now,
                    );
                    &&& r is Err
                    &&& r->Err_0@ == failure_error(rec)
                    &&& final(self).supervisor_proposals@ == upserted(old(self).supervisor_proposals@, rec)
                    &&& *final(self) == (CollaborationState { supervisor_proposals: final(self).supervisor_proposals, ..*old(self) })
                },
            },
    {
        match reply {
            GenerationReply::Generated(p) => self.persist_generated_proposal(p, policy),
            GenerationReply::Failed {
                id, workstream_id, primary_work_unit_id, source_report_id, reasoner_model, proposed_decision_type, failure, now,
            } => {
                let (_, e) = self.fail_proposal_generation(
                    id, workstream_id, primary_work_unit_id, source_report_id, reasoner_model, proposed_decision_type, failure, now,
                );
                Err(e)
            },
        }
    }
}

/// An automatic generation for a pair that already has a proposal of any status never asks the
/// reasoner: it is suppressed (or refused or skipped by readiness first).
pub proof fn lemma_auto_duplicate_never_asks(
    st: CollaborationState,
    ps: Seq<SupervisorProposalRecord>,
    work_unit_id: Seq<char>,
    source_report_id: Option<Seq<char>>,
    live_turn: bool,
    src: Seq<char>,
)
    requires
        generation_prep(st, work_unit_id, source_report_id, true, live_turn) == Ok::<GenerationPrepView, OrcasErrorView>(GenerationPrepView::Ready(src)),
        has_same_source(ps, work_unit_id, src, false),
    ensures
        generation_start(st, ps, work_unit_id, source_report_id, ProposalDuplicatePolicy::Auto, live_turn)
            == GenerationStartView::Suppressed("proposal generation already exists for "@ + pair_text(work_unit_id, src)),
{
}

/// A proposal generation asked for automatically when a report is recorded; it goes through
/// `begin_proposal_generation` under the automatic duplicate policy.
#[derive(Debug)]
pub struct AutoProposalRequest {
    pub work_unit_id: String,
    pub source_report_id: String,
    pub requested_by: String,
    pub note: String,
}

/// Who automatic proposals are requested by.
pub open spec fn auto_requested_by() -> Seq<char> {
    "orcasd_auto_report_recorded"@
}

/// The note of an automatic proposal for a report.
pub open spec fn auto_note(report_id: Seq<char>) -> Seq<char> {
    "Automatically synthesize the next bounded proposal for authoritative report `"@ + report_id + "`."@
}

/// The generation a recorded report asks for, when automatic proposals are enabled: one for the
/// report's work unit from that report.
pub fn auto_proposal_request(enabled: bool, report: &Report) -> (r: Option<AutoProposalRequest>)
    ensures
        r is Some <==> enabled,
        r is Some ==> {
            let q = r->0;
            &&& q.work_unit_id@ == report.work_unit_id@
            &&& q.source_report_id@ == report.id@
            &&& q.requested_by@ == auto_requested_by()
            &&& q.note@ == auto_note(report.id@)
        },
{
    if !enabled {
        return None;
    }
    Some(AutoProposalRequest {
        work_unit_id: report.work_unit_id.clone(),
        source_report_id: report.id.clone(),
        requested_by: owned("orcasd_auto_report_recorded"),
        note: cat3("Automatically synthesize the next bounded proposal for authoritative report `", report.id.as_str(), "`."),
    })
}

} // verus!
