use vstd::prelude::*;

verus! {

/// Lifecycle of a workstream.
#[derive(Debug, Clone, Copy, PartialEq, Eq, Structural)]
pub enum WorkstreamStatus {
    Active,
    Blocked,
    Completed,
}

/// Lifecycle of a work unit.
#[derive(Debug, Clone, Copy, PartialEq, Eq, Structural)]
pub enum WorkUnitStatus {
    Ready,
    Blocked,
    Running,
    AwaitingDecision,
    Accepted,
    NeedsHuman,
    Completed,
}

/// How a tracked thread relates to an upstream Codex thread.
#[derive(Debug, Clone, Copy, PartialEq, Eq, Structural)]
pub enum TrackedThreadBindingState {
    Bound,
    Unbound,
    Detached,
}

/// Which backend runs a tracked thread.
#[derive(Debug, Clone, Copy, PartialEq, Eq, Structural)]
pub enum TrackedThreadBackendKind {
    Codex,
}

/// A copy of an optional string.
pub fn copy_opt_string(o: &Option<String>) -> (r: Option<String>)
    ensures
        r == *o,
{
    match o {
        Some(s) => Some(s.clone()),
        None => None,
    }
}

/// Why a request failed.
#[derive(Debug)]
pub enum OrcasError {
    /// The request broke a rule of the protocol.
    Protocol(String),
    /// The store could not hold or give what the request needed.
    Store(String),
    /// A process or connection the request depends on is unavailable.
    Transport(String),
}

/// The contents of an error, for contracts.
pub ghost enum OrcasErrorView {
    Protocol(Seq<char>),
    Store(Seq<char>),
    Transport(Seq<char>),
}

impl View for OrcasError {
    type V = OrcasErrorView;

    open spec fn view(&self) -> OrcasErrorView {
        match self {
            OrcasError::Protocol(m) => OrcasErrorView::Protocol(m@),
            OrcasError::Store(m) => OrcasErrorView::Store(m@),
            OrcasError::Transport(m) => OrcasErrorView::Transport(m@),
        }
    }
}

/// Where a turn stands in its lifecycle.
#[derive(Debug, Clone, Copy, PartialEq, Eq, Structural)]
pub enum TurnLifecycleState {
    Active,
    Completed,
    Failed,
    Interrupted,
    Lost,
    Unknown,
}

/// A copy of a list of strings.
pub fn copy_strings(v: &Vec<String>) -> (r: Vec<String>)
    ensures
        r@ == v@,
{
    let mut out: Vec<String> = Vec::new();
    let mut i: usize = 0;
    while i < v.len()
        invariant
            i <= v@.len(),
            out@ == v@.take(i as int),
        decreases v.len() - i,
    {
        out.push(v[i].clone());
        assert(v@.take(i + 1) =~= v@.take(i as int).push(v@[i as int]));
        i = i + 1;
    }
    assert(v@.take(i as int) =~= v@);
    out
}

} // verus!
