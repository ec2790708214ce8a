use vstd::prelude::*;

use super::keyed::{find, get, has, keys_unique, lemma_update_keyed, pos_of, upsert, upserted, Keyed};
use super::types::{
    CollaborationState, Worker, WorkerSession, WorkerSessionAttachability,
    WorkerSessionRuntimeStatus, WorkerStatus,
};
use crate::model::{OrcasError, OrcasErrorView};
use crate::text::{cat3, owned, seq_lt, str_eq, str_lt};

verus! {

/// Whether a session can take a new assignment of a worker: it is the worker's and not lost.
pub open spec fn reusable_session(s: WorkerSession, worker_id: Seq<char>) -> bool {
    s.worker_id@ == worker_id && s.runtime_status != WorkerSessionRuntimeStatus::Lost
}

/// Whether session `a` was updated later than `b`, the id breaking ties.
pub open spec fn session_later(a: WorkerSession, b: WorkerSession) -> bool {
    a.updated_at > b.updated_at || (a.updated_at == b.updated_at && seq_lt(b.id@, a.id@))
}

/// Whether the session at `b` is the worker's most recently updated reusable session.
pub open spec fn is_best_session(ss: Seq<WorkerSession>, worker_id: Seq<char>, b: int) -> bool {
    &&& 0 <= b < ss.len()
    &&& reusable_session(ss[b], worker_id)
    &&& forall|c: int| 0 <= c < ss.len() && c != b && reusable_session(#[trigger] ss[c], worker_id) ==> session_later(ss[b], ss[c])
}

/// The worker's most recently updated reusable session, if any.
pub open spec fn best_session(ss: Seq<WorkerSession>, worker_id: Seq<char>) -> Option<int> {
    if exists|b: int| is_best_session(ss, worker_id, b) {
        Some(choose|b: int| is_best_session(ss, worker_id, b))
    } else {
        None
    }
}

/// The worker table with the worker present: unchanged when it is, else with a new idle worker.
pub open spec fn worker_ensured(pre: Seq<Worker>, post: Seq<Worker>, worker_id: Seq<char>, kind: Seq<char>) -> bool {
    if has(pre, worker_id) {
        post == pre
    } else {
        &&& post.len() == pre.len() + 1
        &&& post.drop_last() == pre
        &&& post.last().id@ == worker_id
        &&& post.last().kind@ == kind
        &&& post.last().status == WorkerStatus::Idle
        &&& post.last().current_assignment_id is None
    }
}

/// The fresh session a worker gets when none can be reused.
pub open spec fn fresh_session(s: WorkerSession, id: Seq<char>, worker_id: Seq<char>, now: i64) -> bool {
    &&& s.id@ == id
    &&& s.worker_id@ == worker_id
    &&& s.backend_type@ == "codex_thread"@
    &&& s.thread_id is None
    &&& s.active_turn_id is None
    &&& s.runtime_status == WorkerSessionRuntimeStatus::Idle
    &&& s.attachability == WorkerSessionAttachability::Unknown
    &&& s.updated_at == now
}

proof fn lemma_best_unique(ss: Seq<WorkerSession>, worker_id: Seq<char>, b: int)
    requires
        keys_unique(ss),
        is_best_session(ss, worker_id, b),
    ensures
        best_session(ss, worker_id) == Some(b),
{
    let c = choose|x: int| is_best_session(ss, worker_id, x);
    if c != b {
        assert(session_later(ss[b], ss[c]));
        assert(session_later(ss[c], ss[b]));
        crate::text::lemma_seq_lt_asym(ss[b].id@, ss[c].id@);
    }
}

/// What selecting a session does to the workers and sessions: the worker is registered if new,
/// and the result is its most recently updated session that is not lost, or a fresh session
/// opened under `new_session_id`.
pub open spec fn sessions_selected(
    pre_workers: Seq<Worker>,
    post_workers: Seq<Worker>,
    pre_sessions: Vec<WorkerSession>,
    post_sessions: Vec<WorkerSession>,
    worker_id: Seq<char>,
    worker_kind: Seq<char>,
    now: i64,
    new_session_id: Seq<char>,
    r: Seq<char>,
) -> bool {
    &&& worker_ensured(pre_workers, post_workers, worker_id, worker_kind)
    &&& match best_session(pre_sessions@, worker_id) {
        Some(b) => r == pre_sessions@[b].id@ && post_sessions == pre_sessions,
        None => r == new_session_id && exists|s: WorkerSession|
            fresh_session(s, new_session_id, worker_id, now) && post_sessions@ == upserted(pre_sessions@, s),
    }
}

/// What selecting a session for a worker does: the worker is registered if new, and the result
/// is its most recently updated session that is not lost, or a fresh session opened under
/// `new_session_id`; nothing else changes.
pub open spec fn session_selected(
    pre: CollaborationState,
    post: CollaborationState,
    worker_id: Seq<char>,
    worker_kind: Seq<char>,
    now: i64,
    new_session_id: Seq<char>,
    r: Seq<char>,
) -> bool {
    &&& sessions_selected(pre.workers@, post.workers@, pre.worker_sessions, post.worker_sessions, worker_id, worker_kind, now, new_session_id, r)
    &&& post.workstreams == pre.workstreams
    &&& post.work_units == pre.work_units
    &&& post.assignments == pre.assignments
    &&& post.reports == pre.reports
    &&& post.decisions == pre.decisions
    &&& post.supervisor_proposals == pre.supervisor_proposals
    &&& post.assignment_communications == pre.assignment_communications
}

impl CollaborationState {
    /// The session a worker's next assignment runs in: the worker is registered if new, and its
    /// most recently updated session that is not lost is reused, else a fresh one is opened under
    /// `new_session_id`.
    pub fn select_worker_session_for_assignment(
        &mut self,
        worker_id: &str,
        worker_kind: String,
        now: i64,
        new_session_id: String,
    ) -> (r: String)
        requires
            old(self).wf(),
        ensures
            final(self).wf(),
            session_selected(*old(self), *final(self), worker_id@, worker_kind@, now, new_session_id@, r@),
    {
        if find(&self.workers, worker_id).is_none() {
            let ghost before = self.workers@;
            self.workers.push(Worker {
                id: owned(worker_id),
                kind: worker_kind,
                status: WorkerStatus::Idle,
                current_assignment_id: None,
            });
            proof {
                assert(self.workers@.drop_last() =~= before);
                assert forall|a: int, b: int|
                    #![trigger self.workers@[a], self.workers@[b]]
                    0 <= a < self.workers@.len() && 0 <= b < self.workers@.len() && a != b
                        implies self.workers@[a].key() != self.workers@[b].key() by {
                    if a == before.len() {
                        assert(before[b].key() != worker_id@);
                    } else if b == before.len() {
                        assert(before[a].key() != worker_id@);
                    } else {
                        assert(before[a] == self.workers@[a] && before[b] == self.workers@[b]);
                    }
                }
            }
        }
        let mut best: Option<usize> = None;
        let mut i: usize = 0;
        while i < self.worker_sessions.len()
            invariant
                i <= self.worker_sessions@.len(),
                keys_unique(self.worker_sessions@),
                match best {
                    Some(b) => b < i && reusable_session(self.worker_sessions@[b as int], worker_id@)
                        && forall|c: int| 0 <= c < i && c != b && reusable_session(#[trigger] self.worker_sessions@[c], worker_id@)
                            ==> session_later(self.worker_sessions@[b as int], self.worker_sessions@[c]),
                    None => forall|c: int| 0 <= c < i ==> !reusable_session(#[trigger] self.worker_sessions@[c], worker_id@),
                },
            decreases self.worker_sessions.len() - i,
        {
            let s = &self.worker_sessions[i];
            if str_eq(s.worker_id.as_str(), worker_id) && s.runtime_status != WorkerSessionRuntimeStatus::Lost {
                match best {
                    None => {
                        best = Some(i);
                    },
                    Some(b) => {
                        let cur = &self.worker_sessions[b];
                        let later = s.updated_at > cur.updated_at || (s.updated_at == cur.updated_at
                            && str_lt(cur.id.as_str(), s.id.as_str()));
                        if later {
                            proof {
                                assert forall|c: int| 0 <= c < i + 1 && c != i && reusable_session(#[trigger] self.worker_sessions@[c], worker_id@)
                                    implies session_later(self.worker_sessions@[i as int], self.worker_sessions@[c]) by {
                                    if c != b {
                                        assert(session_later(self.worker_sessions@[b as int], self.worker_sessions@[c]));
                                        let sc = self.worker_sessions@[c];
                                        let sb = self.worker_sessions@[b as int];
                                        let si = self.worker_sessions@[i as int];
                                        if sc.updated_at == sb.updated_at && sb.updated_at == si.updated_at {
                                            crate::text::lemma_seq_lt_trans(sc.id@, sb.id@, si.id@);
                                        }
                                    }
                                }
                            }
                            best = Some(i);
                        } else {
                            proof {
                                assert(self.worker_sessions@[b as int].id@ != self.worker_sessions@[i as int].id@);
                                crate::text::lemma_seq_lt_total(self.worker_sessions@[b as int].id@, self.worker_sessions@[i as int].id@);
                            }
                        }
                    },
                }
            }
            i = i + 1;
        }
        match best {
            Some(b) => {
                proof { lemma_best_unique(self.worker_sessions@, worker_id@, b as int); }
                self.worker_sessions[b].id.clone()
            },
            None => {
                assert(best_session(self.worker_sessions@, worker_id@) is None);
                let session = WorkerSession {
                    id: new_session_id.clone(),
                    worker_id: owned(worker_id),
                    backend_type: owned("codex_thread"),
                    thread_id: None,
                    active_turn_id: None,
                    runtime_status: WorkerSessionRuntimeStatus::Idle,
                    attachability: WorkerSessionAttachability::Unknown,
                    updated_at: now,
                };
                let ghost sv = session;
                upsert(&mut self.worker_sessions, session);
                assert(fresh_session(sv, new_session_id@, worker_id@, now));
                new_session_id
            },
        }
    }
}

/// A worker session anchored to a newly started thread: idle, attachability not yet known,
/// updated at `now`.
pub open spec fn session_attached(pre: WorkerSession, post: WorkerSession, thread_id: Seq<char>, now: i64) -> bool {
    &&& post.thread_id is Some
    &&& post.thread_id->0@ == thread_id
    &&& post == (WorkerSession {
        thread_id: post.thread_id,
        runtime_status: WorkerSessionRuntimeStatus::Idle,
        attachability: WorkerSessionAttachability::Unknown,
        updated_at: now,
        ..pre
    })
}

impl CollaborationState {
    /// Anchors a worker session to a thread started for it, and returns the session as it now
    /// is; an unknown session is refused and nothing changes.
    pub fn attach_worker_session_thread(&mut self, worker_session_id: &str, thread_id: String, now: i64) -> (r: Result<
        WorkerSession,
        OrcasError,
    >)
        requires
            old(self).wf(),
        ensures
            final(self).wf(),
            match pos_of(old(self).worker_sessions@, worker_session_id@) {
                None => {
                    &&& r is Err
                    &&& r->Err_0@ == OrcasErrorView::Protocol("unknown worker session `"@ + worker_session_id@ + "`"@)
                    &&& *final(self) == *old(self)
                },
                Some(i) => {
                    &&& r is Ok
                    &&& session_attached(old(self).worker_sessions@[i], r->Ok_0, thread_id@, now)
                    &&& final(self).worker_sessions@ == old(self).worker_sessions@.update(i, r->Ok_0)
                    &&& *final(self) == (CollaborationState { worker_sessions: final(self).worker_sessions, ..*old(self) })
                },
            },
    {
        let i = match find(&self.worker_sessions, worker_session_id) {
            None => {
                return Err(OrcasError::Protocol(cat3("unknown worker session `", worker_session_id, "`")));
            },
            Some(i) => i,
        };
        let mut session = self.worker_sessions[i].copy();
        session.thread_id = Some(thread_id);
        session.runtime_status = WorkerSessionRuntimeStatus::Idle;
        session.attachability = WorkerSessionAttachability::Unknown;
        session.updated_at = now;
        let out = session.copy();
        proof {
            lemma_update_keyed(self.worker_sessions@, i as int, session);
        }
        self.worker_sessions.set(i, session);
        Ok(out)
    }
}

/// A lost session never takes a new assignment: the session selected is the worker's and not
/// lost, and it is no session that was lost, whenever the fresh id is not taken already.
pub proof fn lemma_lost_session_never_reused(
    pre: CollaborationState,
    post: CollaborationState,
    worker_id: Seq<char>,
    worker_kind: Seq<char>,
    now: i64,
    new_session_id: Seq<char>,
    r: Seq<char>,
)
    requires
        pre.wf(),
        pos_of(pre.worker_sessions@, new_session_id) is None,
        session_selected(pre, post, worker_id, worker_kind, now, new_session_id, r),
    ensures
        forall|j: int| 0 <= j < pre.worker_sessions@.len()
            && (#[trigger] pre.worker_sessions@[j]).runtime_status == WorkerSessionRuntimeStatus::Lost
            ==> pre.worker_sessions@[j].id@ != r,
        exists|j: int| 0 <= j < post.worker_sessions@.len() && #[trigger] post.worker_sessions@[j].id@ == r
            && reusable_session(post.worker_sessions@[j], worker_id),
{
    match best_session(pre.worker_sessions@, worker_id) {
        Some(b) => {
            assert(is_best_session(pre.worker_sessions@, worker_id, b));
            assert forall|j: int| 0 <= j < pre.worker_sessions@.len()
                && (#[trigger] pre.worker_sessions@[j]).runtime_status == WorkerSessionRuntimeStatus::Lost
                implies pre.worker_sessions@[j].id@ != r by {
                if j != b {
                    assert(pre.worker_sessions@[j].key() != pre.worker_sessions@[b].key());
                }
            }
            assert(post.worker_sessions@[b].id@ == r);
        },
        None => {
            let fs = choose|s: WorkerSession| fresh_session(s, new_session_id, worker_id, now)
                && post.worker_sessions@ == upserted(pre.worker_sessions@, s);
            assert forall|j: int| 0 <= j < pre.worker_sessions@.len()
                && (#[trigger] pre.worker_sessions@[j]).runtime_status == WorkerSessionRuntimeStatus::Lost
                implies pre.worker_sessions@[j].id@ != r by {
                if pre.worker_sessions@[j].id@ == r {
                    assert(pre.worker_sessions@[j].key() == new_session_id);
                    assert(pos_of(pre.worker_sessions@, new_session_id) is Some);
                }
            }
            assert(fs.key() == new_session_id);
            assert(post.worker_sessions@ == pre.worker_sessions@.push(fs));
            assert(post.worker_sessions@[pre.worker_sessions@.len() as int] == fs);
        },
    }
}

} // verus!
