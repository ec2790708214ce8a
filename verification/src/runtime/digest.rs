use vstd::prelude::*;
use vstd::string::StrSliceExecFns;
use vstd::string::StringExecFns;

use super::types::{opt_text, ActiveTurn, ItemView, ThreadSummary, TurnView};
use crate::assignment_comm::ReportParseResult;
use crate::collaboration::types::{
    Assignment, CollaborationLifecycleAction, Decision, DecisionType, Report, SupervisorProposalRecord,
    WorkUnit, Workstream,
};
use crate::model::copy_opt_string;
use crate::text::{cat2, cat3, decimal, decimal_string, owned};

verus! {

/// How a change to an assignment is announced.
#[derive(Debug, Clone, Copy, PartialEq, Eq, Structural)]
pub enum AssignmentLifecycleAction {
    Created,
    Started,
    Reported,
    Interrupted,
    Failed,
    Closed,
}

/// How a change to a proposal is announced.
#[derive(Debug, Clone, Copy, PartialEq, Eq, Structural)]
pub enum ProposalLifecycleAction {
    Created,
    Approved,
    Rejected,
    Superseded,
    Stale,
    GenerationFailed,
}

/// The upstream connection's state.
#[derive(Debug)]
pub struct ConnectionState {
    pub endpoint: String,
    pub status: String,
    pub detail: Option<String>,
}

impl ConnectionState {
    pub fn copy(&self) -> (r: Self)
        ensures
            r == *self,
    {
        ConnectionState { endpoint: self.endpoint.clone(), status: self.status.clone(), detail: copy_opt_string(&self.detail) }
    }
}

/// The session: the active thread and the turns an operator can attach to.
#[derive(Debug)]
pub struct SessionState {
    pub active_thread_id: Option<String>,
    pub active_turns: Vec<ActiveTurn>,
}

/// What the daemon announces to its clients.
#[derive(Debug)]
#[allow(inconsistent_fields)]
pub enum DaemonEvent {
    UpstreamStatusChanged { upstream: ConnectionState },
    SessionChanged { session: SessionState },
    ThreadUpdated { thread: ThreadSummary },
    TurnUpdated { thread_id: String, turn: TurnView },
    ItemUpdated { thread_id: String, turn_id: String, item: ItemView },
    OutputDelta { thread_id: String, turn_id: String, item_id: String, delta: String },
    WorkstreamLifecycle { action: CollaborationLifecycleAction, workstream: Workstream },
    WorkUnitLifecycle { action: CollaborationLifecycleAction, work_unit: WorkUnit },
    AssignmentLifecycle { action: AssignmentLifecycleAction, assignment: Assignment },
    ReportRecorded { report: Report },
    DecisionApplied { decision: Decision },
    ProposalLifecycle { action: ProposalLifecycleAction, proposal: SupervisorProposalRecord },
    Warning { message: String },
}

/// The line the daemon keeps of an event in its recent-events list.
#[derive(Debug)]
pub struct EventSummary {
    pub timestamp: i64,
    pub kind: String,
    pub message: String,
    pub thread_id: Option<String>,
    pub turn_id: Option<String>,
}

/// The name of a collaboration lifecycle action.
pub open spec fn collab_action_name(a: CollaborationLifecycleAction) -> Seq<char> {
    match a {
        CollaborationLifecycleAction::Created => "Created"@,
        CollaborationLifecycleAction::Updated => "Updated"@,
        CollaborationLifecycleAction::Completed => "Completed"@,
        CollaborationLifecycleAction::Escalated => "Escalated"@,
    }
}

/// The name of an assignment lifecycle action.
pub open spec fn assignment_action_name(a: AssignmentLifecycleAction) -> Seq<char> {
    match a {
        AssignmentLifecycleAction::Created => "Created"@,
        AssignmentLifecycleAction::Started => "Started"@,
        AssignmentLifecycleAction::Reported => "Reported"@,
        AssignmentLifecycleAction::Interrupted => "Interrupted"@,
        AssignmentLifecycleAction::Failed => "Failed"@,
        AssignmentLifecycleAction::Closed => "Closed"@,
    }
}

/// The name of a proposal lifecycle action.
pub open spec fn proposal_action_name(a: ProposalLifecycleAction) -> Seq<char> {
    match a {
        ProposalLifecycleAction::Created => "Created"@,
        ProposalLifecycleAction::Approved => "Approved"@,
        ProposalLifecycleAction::Rejected => "Rejected"@,
        ProposalLifecycleAction::Superseded => "Superseded"@,
        ProposalLifecycleAction::Stale => "Stale"@,
        ProposalLifecycleAction::GenerationFailed => "GenerationFailed"@,
    }
}

/// The name of a report's parse result.
pub open spec fn parse_result_name(p: ReportParseResult) -> Seq<char> {
    match p {
        ReportParseResult::Parsed => "Parsed"@,
        ReportParseResult::Ambiguous => "Ambiguous"@,
        ReportParseResult::Invalid => "Invalid"@,
    }
}

/// The name of a decision type.
pub open spec fn decision_type_name(t: DecisionType) -> Seq<char> {
    match t {
        DecisionType::Accept => "Accept"@,
        DecisionType::Continue => "Continue"@,
        DecisionType::Redirect => "Redirect"@,
        DecisionType::MarkComplete => "MarkComplete"@,
        DecisionType::EscalateToHuman => "EscalateToHuman"@,
    }
}

fn collab_action_str(a: CollaborationLifecycleAction) -> (r: &'static str)
    ensures
        r@ == collab_action_name(a),
{
    match a {
        CollaborationLifecycleAction::Created => "Created",
        CollaborationLifecycleAction::Updated => "Updated",
        CollaborationLifecycleAction::Completed => "Completed",
        CollaborationLifecycleAction::Escalated => "Escalated",
    }
}

fn assignment_action_str(a: AssignmentLifecycleAction) -> (r: &'static str)
    ensures
        r@ == assignment_action_name(a),
{
    match a {
        AssignmentLifecycleAction::Created => "Created",
        AssignmentLifecycleAction::Started => "Started",
        AssignmentLifecycleAction::Reported => "Reported",
        AssignmentLifecycleAction::Interrupted => "Interrupted",
        AssignmentLifecycleAction::Failed => "Failed",
        AssignmentLifecycleAction::Closed => "Closed",
    }
}

fn proposal_action_str(a: ProposalLifecycleAction) -> (r: &'static str)
    ensures
        r@ == proposal_action_name(a),
{
    match a {
        ProposalLifecycleAction::Created => "Created",
        ProposalLifecycleAction::Approved => "Approved",
        ProposalLifecycleAction::Rejected => "Rejected",
        ProposalLifecycleAction::Superseded => "Superseded",
        ProposalLifecycleAction::Stale => "Stale",
        ProposalLifecycleAction::GenerationFailed => "GenerationFailed",
    }
}

fn parse_result_str(p: ReportParseResult) -> (r: &'static str)
    ensures
        r@ == parse_result_name(p),
{
    match p {
        ReportParseResult::Parsed => "Parsed",
        ReportParseResult::Ambiguous => "Ambiguous",
        ReportParseResult::Invalid => "Invalid",
    }
}

fn decision_type_str(t: DecisionType) -> (r: &'static str)
    ensures
        r@ == decision_type_name(t),
{
    match t {
        DecisionType::Accept => "Accept",
        DecisionType::Continue => "Continue",
        DecisionType::Redirect => "Redirect",
        DecisionType::MarkComplete => "MarkComplete",
        DecisionType::EscalateToHuman => "EscalateToHuman",
    }
}

/// Text with each line break written as a backslash and `n`.
pub open spec fn escape_newlines(s: Seq<char>) -> Seq<char>
    decreases s.len(),
{
    if s.len() == 0 {
        Seq::empty()
    } else {
        escape_newlines(s.drop_last()) + if s.last() == '\n' {
            seq!['\\', 'n']
        } else {
            seq![s.last()]
        }
    }
}

/// Text with each line break written as a backslash and `n`.
pub fn escape_line_breaks(s: &str) -> (r: String)
    ensures
        r@ == escape_newlines(s@),
{
    let n = s.unicode_len();
    let mut out = String::new();
    let mut i: usize = 0;
    while i < n
        invariant
            n == s@.len(),
            i <= n,
            out@ == escape_newlines(s@.take(i as int)),
        decreases n - i,
    {
        assert(s@.take(i as int + 1).drop_last() =~= s@.take(i as int));
        let c = s.get_char(i);
        if c == '\n' {
            out.append("\\n");
            proof {
                reveal_strlit("\\n");
                assert("\\n"@ =~= seq!['\\', 'n']);
            }
        } else {
            let piece = s.substring_char(i, i + 1);
            assert(piece@ =~= seq![c]);
            out.append(piece);
        }
        i = i + 1;
    }
    assert(s@.take(n as int) =~= s@);
    out
}

/// A line of a word, a name and a detail, separated by spaces.
pub open spec fn line_of(word: Seq<char>, name: Seq<char>, detail: Seq<char>) -> Seq<char> {
    word + " "@ + name + " "@ + detail
}

/// An event's summary: its kind, its message, and the thread and turn it is about.
pub open spec fn event_digest(e: DaemonEvent) -> (Seq<char>, Seq<char>, Option<Seq<char>>, Option<Seq<char>>) {
    match e {
        DaemonEvent::UpstreamStatusChanged { upstream } => (
            "upstream"@,
            line_of("upstream"@, upstream.endpoint@, upstream.status@),
            None,
            None,
        ),
        DaemonEvent::SessionChanged { session } => (
            "session"@,
            "active turns "@ + decimal(session.active_turns@.len()),
            opt_text(session.active_thread_id),
            None,
        ),
        DaemonEvent::ThreadUpdated { thread } => (
            "thread"@,
            line_of("thread"@, thread.id@, thread.status@),
            Some(thread.id@),
            None,
        ),
        DaemonEvent::TurnUpdated { thread_id, turn } => (
            "turn"@,
            line_of("turn"@, turn.id@, turn.status@),
            Some(thread_id@),
            Some(turn.id@),
        ),
        DaemonEvent::ItemUpdated { thread_id, turn_id, item } => (
            "item"@,
            line_of("item"@, item.id@, (if item.status is Some { item.status->0@ } else { "updated"@ })),
            Some(thread_id@),
            Some(turn_id@),
        ),
        DaemonEvent::OutputDelta { thread_id, turn_id, item_id, delta } => (
            "delta"@,
            "delta "@ + escape_newlines(delta@),
            Some(thread_id@),
            Some(turn_id@),
        ),
        DaemonEvent::WorkstreamLifecycle { action, workstream } => (
            "workstream"@,
            line_of("workstream"@, workstream.id@, collab_action_name(action)),
            None,
            None,
        ),
        DaemonEvent::WorkUnitLifecycle { action, work_unit } => (
            "work_unit"@,
            line_of("work_unit"@, work_unit.id@, collab_action_name(action)),
            None,
            None,
        ),
        DaemonEvent::AssignmentLifecycle { action, assignment } => (
            "assignment"@,
            line_of("assignment"@, assignment.id@, assignment_action_name(action)),
            None,
            None,
        ),
        DaemonEvent::ReportRecorded { report } => (
            "report"@,
            line_of("report"@, report.id@, parse_result_name(report.parse_result)),
            None,
            None,
        ),
        DaemonEvent::DecisionApplied { decision } => (
            "decision"@,
            line_of("decision"@, decision.id@, decision_type_name(decision.decision_type)),
            None,
            None,
        ),
        DaemonEvent::ProposalLifecycle { action, proposal } => (
            "proposal"@,
            line_of("proposal"@, proposal.id@, proposal_action_name(action)),
            None,
            None,
        ),
        DaemonEvent::Warning { message } => ("warning"@, message@, None, None),
    }
}

/// A message of a word, a name and a detail, separated by spaces.
fn line3(word: &str, name: &str, detail: &str) -> (r: String)
    ensures
        r@ == word@ + " "@ + name@ + " "@ + detail@,
{
    let head = cat3(word, " ", name);
    let r = cat3(head.as_str(), " ", detail);
    proof {
        reveal_strlit(" ");
    }
    r
}

/// The summary kept of an event emitted at `timestamp`.
pub fn event_summary(event: &DaemonEvent, timestamp: i64) -> (r: Option<EventSummary>)
    ensures
        r is Some,
        r->0.timestamp == timestamp,
        r->0.kind@ == event_digest(*event).0,
        r->0.message@ == event_digest(*event).1,
        opt_text(r->0.thread_id) == event_digest(*event).2,
        opt_text(r->0.turn_id) == event_digest(*event).3,
{
    let r = match event {
        DaemonEvent::UpstreamStatusChanged { upstream } => EventSummary {
            timestamp,
            kind: owned("upstream"),
            message: line3("upstream", upstream.endpoint.as_str(), upstream.status.as_str()),
            thread_id: None,
            turn_id: None,
        },
        DaemonEvent::SessionChanged { session } => {
            let count = decimal_string(session.active_turns.len() as u64);
            assert(count@ == decimal(session.active_turns@.len()));
            EventSummary {
                timestamp,
                kind: owned("session"),
                message: cat2("active turns ", count.as_str()),
                thread_id: crate::model::copy_opt_string(&session.active_thread_id),
                turn_id: None,
            }
        },
        DaemonEvent::ThreadUpdated { thread } => EventSummary {
            timestamp,
            kind: owned("thread"),
            message: line3("thread", thread.id.as_str(), thread.status.as_str()),
            thread_id: Some(thread.id.clone()),
            turn_id: None,
        },
        DaemonEvent::TurnUpdated { thread_id, turn } => EventSummary {
            timestamp,
            kind: owned("turn"),
            message: line3("turn", turn.id.as_str(), turn.status.as_str()),
            thread_id: Some(thread_id.clone()),
            turn_id: Some(turn.id.clone()),
        },
        DaemonEvent::ItemUpdated { thread_id, turn_id, item } => {
            let status: &str = match &item.status {
                Some(s) => s.as_str(),
                None => "updated",
            };
            EventSummary {
                timestamp,
                kind: owned("item"),
                message: line3("item", item.id.as_str(), status),
                thread_id: Some(thread_id.clone()),
                turn_id: Some(turn_id.clone()),
            }
        },
        DaemonEvent::OutputDelta { thread_id, turn_id, item_id: _, delta } => {
            let escaped = escape_line_breaks(delta.as_str());
            assert(escaped@ == escape_newlines(delta@));
            EventSummary {
                timestamp,
                kind: owned("delta"),
                message: cat2("delta ", escaped.as_str()),
                thread_id: Some(thread_id.clone()),
                turn_id: Some(turn_id.clone()),
            }
        },
        DaemonEvent::WorkstreamLifecycle { action, workstream } => EventSummary {
            timestamp,
            kind: owned("workstream"),
            message: line3("workstream", workstream.id.as_str(), collab_action_str(*action)),
            thread_id: None,
            turn_id: None,
        },
        DaemonEvent::WorkUnitLifecycle { action, work_unit } => EventSummary {
            timestamp,
            kind: owned("work_unit"),
            message: line3("work_unit", work_unit.id.as_str(), collab_action_str(*action)),
            thread_id: None,
            turn_id: None,
        },
        DaemonEvent::AssignmentLifecycle { action, assignment } => EventSummary {
            timestamp,
            kind: owned("assignment"),
            message: line3("assignment", assignment.id.as_str(), assignment_action_str(*action)),
            thread_id: None,
            turn_id: None,
        },
        DaemonEvent::ReportRecorded { report } => EventSummary {
            timestamp,
            kind: owned("report"),
            message: line3("report", report.id.as_str(), parse_result_str(report.parse_result)),
            thread_id: None,
            turn_id: None,
        },
        DaemonEvent::DecisionApplied { decision } => EventSummary {
            timestamp,
            kind: owned("decision"),
            message: line3("decision", decision.id.as_str(), decision_type_str(decision.decision_type)),
            thread_id: None,
            turn_id: None,
        },
        DaemonEvent::ProposalLifecycle { action, proposal } => EventSummary {
            timestamp,
            kind: owned("proposal"),
            message: line3("proposal", proposal.id.as_str(), proposal_action_str(*action)),
            thread_id: None,
            turn_id: None,
        },
        DaemonEvent::Warning { message } => EventSummary {
            timestamp,
            kind: owned("warning"),
            message: message.clone(),
            thread_id: None,
            turn_id: None,
        },
    };
    Some(r)
}

} // verus!
