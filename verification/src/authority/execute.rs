use vstd::prelude::*;

use super::commands::{
    create_tracked_thread_error, create_work_unit_error, create_workstream_error,
    edit_tracked_thread_error, edit_work_unit_error, edit_workstream_error, edited_tracked_thread,
    edited_work_unit, edited_workstream, new_tracked_thread, new_work_unit, new_workstream,
    tracked_thread_created, tracked_thread_edited, work_unit_created, work_unit_edited,
    workstream_created, workstream_edited,
};
use super::delete::{
    delete_tracked_thread_error, delete_work_unit_error, delete_workstream_error,
    deleted_tracked_thread, deleted_work_unit, deleted_workstream, tracked_thread_deleted,
    work_unit_deleted, workstream_deleted,
};
use super::store::AuthorityState;
use super::types::{AuthorityCommand, AuthorityMutationResult, CommandReceipt};
use crate::model::{OrcasError, OrcasErrorView};
use crate::text::str_eq;

verus! {

/// The error a command meets against the store, if it is refused.
pub open spec fn command_error(s: AuthorityState, command: AuthorityCommand) -> Option<OrcasErrorView> {
    match command {
        AuthorityCommand::CreateWorkstream(c) => create_workstream_error(s, c),
        AuthorityCommand::EditWorkstream(c) => edit_workstream_error(s, c),
        AuthorityCommand::DeleteWorkstream(c) => delete_workstream_error(s, c),
        AuthorityCommand::CreateWorkUnit(c) => create_work_unit_error(s, c),
        AuthorityCommand::EditWorkUnit(c) => edit_work_unit_error(s, c),
        AuthorityCommand::DeleteWorkUnit(c) => delete_work_unit_error(s, c),
        AuthorityCommand::CreateTrackedThread(c) => create_tracked_thread_error(s, c),
        AuthorityCommand::EditTrackedThread(c) => edit_tracked_thread_error(s, c),
        AuthorityCommand::DeleteTrackedThread(c) => delete_tracked_thread_error(s, c),
    }
}

/// The record an accepted command answers with.
pub open spec fn command_result(s: AuthorityState, command: AuthorityCommand) -> AuthorityMutationResult {
    match command {
        AuthorityCommand::CreateWorkstream(c) => AuthorityMutationResult::Workstream(new_workstream(c)),
        AuthorityCommand::EditWorkstream(c) => AuthorityMutationResult::Workstream(edited_workstream(s, c)),
        AuthorityCommand::DeleteWorkstream(c) => AuthorityMutationResult::Workstream(deleted_workstream(s, c)),
        AuthorityCommand::CreateWorkUnit(c) => AuthorityMutationResult::WorkUnit(new_work_unit(c)),
        AuthorityCommand::EditWorkUnit(c) => AuthorityMutationResult::WorkUnit(edited_work_unit(s, c)),
        AuthorityCommand::DeleteWorkUnit(c) => AuthorityMutationResult::WorkUnit(deleted_work_unit(s, c)),
        AuthorityCommand::CreateTrackedThread(c) => AuthorityMutationResult::TrackedThread(new_tracked_thread(c)),
        AuthorityCommand::EditTrackedThread(c) => AuthorityMutationResult::TrackedThread(edited_tracked_thread(s, c)),
        AuthorityCommand::DeleteTrackedThread(c) => AuthorityMutationResult::TrackedThread(deleted_tracked_thread(s, c)),
    }
}

/// What an accepted command does to the projection and the log.
pub open spec fn command_applied(pre: AuthorityState, post: AuthorityState, command: AuthorityCommand) -> bool {
    match command {
        AuthorityCommand::CreateWorkstream(c) => workstream_created(pre, post, c),
        AuthorityCommand::EditWorkstream(c) => workstream_edited(pre, post, c),
        AuthorityCommand::DeleteWorkstream(c) => workstream_deleted(pre, post, c),
        AuthorityCommand::CreateWorkUnit(c) => work_unit_created(pre, post, c),
        AuthorityCommand::EditWorkUnit(c) => work_unit_edited(pre, post, c),
        AuthorityCommand::DeleteWorkUnit(c) => work_unit_deleted(pre, post, c),
        AuthorityCommand::CreateTrackedThread(c) => tracked_thread_created(pre, post, c),
        AuthorityCommand::EditTrackedThread(c) => tracked_thread_edited(pre, post, c),
        AuthorityCommand::DeleteTrackedThread(c) => tracked_thread_deleted(pre, post, c),
    }
}

/// Position of the receipt of a command id.
pub open spec fn receipt_pos(receipts: Seq<CommandReceipt>, command_id: Seq<char>) -> Option<int> {
    if exists|k: int| 0 <= k < receipts.len() && (#[trigger] receipts[k]).command_id@ == command_id {
        Some(choose|k: int| 0 <= k < receipts.len() && (#[trigger] receipts[k]).command_id@ == command_id)
    } else {
        None
    }
}

/// The receipt an accepted command leaves.
pub open spec fn receipt_for(command: AuthorityCommand, result: AuthorityMutationResult, recorded_at: i64) -> CommandReceipt {
    CommandReceipt {
        command_id: command.spec_metadata().command_id,
        command_kind: command.spec_kind(),
        aggregate_type: command.spec_aggregate().0,
        aggregate_id: command.spec_aggregate().1,
        accepted: true,
        response: result,
        recorded_at: recorded_at,
    }
}

/// The contract of running a command against a store: a command id seen before is answered
/// with the stored response and changes nothing; otherwise the command is refused with its error
/// and changes nothing, or it is applied and its receipt recorded.
pub open spec fn command_executed(
    pre: AuthorityState,
    post: AuthorityState,
    command: AuthorityCommand,
    recorded_at: i64,
    r: Result<AuthorityMutationResult, OrcasError>,
) -> bool {
    match receipt_pos(pre.receipts@, command.spec_metadata().command_id@) {
        Some(k) => r is Ok && r->Ok_0 == pre.receipts@[k].response && post == pre,
        None => match command_error(pre, command) {
            Some(e) => r is Err && r->Err_0@ == e && post == pre,
            None => {
                let result = command_result(pre, command);
                &&& r is Ok && r->Ok_0 == result
                &&& command_applied(pre, AuthorityState { receipts: pre.receipts, ..post }, command)
                &&& post.receipts@ == pre.receipts@.push(receipt_for(command, result, recorded_at))
            },
        },
    }
}

impl AuthorityState {
    /// Position of the receipt of a command id.
    pub fn find_receipt(&self, command_id: &str) -> (r: Option<usize>)
        requires
            self.receipts_unique(),
        ensures
            match r {
                Some(k) => receipt_pos(self.receipts@, command_id@) == Some(k as int),
                None => receipt_pos(self.receipts@, command_id@) is None,
            },
    {
        let mut i: usize = 0;
        while i < self.receipts.len()
            invariant
                i <= self.receipts@.len(),
                self.receipts_unique(),
                forall|j: int| 0 <= j < i ==> (#[trigger] self.receipts@[j]).command_id@ != command_id@,
            decreases self.receipts.len() - i,
        {
            if str_eq(self.receipts[i].command_id.as_str(), command_id) {
                let ghost c = choose|k: int|
                    0 <= k < self.receipts@.len() && (#[trigger] self.receipts@[k]).command_id@ == command_id@;
                assert(self.receipts@[i as int].command_id@ == command_id@);
                assert(c == i as int) by {
                    if c != i as int {
                        assert(self.receipts@[c].command_id@ != self.receipts@[i as int].command_id@);
                    }
                }
                return Some(i);
            }
            i = i + 1;
        }
        None
    }

    /// Runs a command, recording its receipt at `recorded_at`; a command id seen before is answered
    /// with the stored response.
    pub fn execute_command_at<F: Fn() -> String>(
        &mut self,
        command: AuthorityCommand,
        recorded_at: i64,
        fresh_id: &F,
    ) -> (r: Result<AuthorityMutationResult, OrcasError>)
        requires
            old(self).wf(),
            fresh_id.requires(()),
        ensures
            final(self).wf(),
            command_executed(*old(self), *final(self), command, recorded_at, r),
    {
        let md = command.metadata();
        if let Some(k) = self.find_receipt(md.command_id.as_str()) {
            return Ok(self.receipts[k].response.copy());
        }
        let ghost pre = *self;
        let result = match &command {
            AuthorityCommand::CreateWorkstream(c) => AuthorityMutationResult::Workstream(self.create_workstream(c, fresh_id)?),
            AuthorityCommand::EditWorkstream(c) => AuthorityMutationResult::Workstream(self.edit_workstream(c, fresh_id)?),
            AuthorityCommand::DeleteWorkstream(c) => AuthorityMutationResult::Workstream(self.delete_workstream(c, fresh_id)?),
            AuthorityCommand::CreateWorkUnit(c) => AuthorityMutationResult::WorkUnit(self.create_work_unit(c, fresh_id)?),
            AuthorityCommand::EditWorkUnit(c) => AuthorityMutationResult::WorkUnit(self.edit_work_unit(c, fresh_id)?),
            AuthorityCommand::DeleteWorkUnit(c) => AuthorityMutationResult::WorkUnit(self.delete_work_unit(c, fresh_id)?),
            AuthorityCommand::CreateTrackedThread(c) => AuthorityMutationResult::TrackedThread(self.create_tracked_thread(c, fresh_id)?),
            AuthorityCommand::EditTrackedThread(c) => AuthorityMutationResult::TrackedThread(self.edit_tracked_thread(c, fresh_id)?),
            AuthorityCommand::DeleteTrackedThread(c) => AuthorityMutationResult::TrackedThread(self.delete_tracked_thread(c, fresh_id)?),
        };
        let (aggregate_type, aggregate_id) = command.aggregate();
        let receipt = CommandReceipt {
            command_id: command.metadata().command_id.clone(),
            command_kind: command.kind(),
            aggregate_type,
            aggregate_id,
            accepted: true,
            response: result.copy(),
            recorded_at,
        };
        let ghost mid = *self;
        self.receipts.push(receipt);
        proof {
            assert(AuthorityState { receipts: pre.receipts, ..*self }.tables() == mid.tables());
            assert forall|i: int, j: int|
                #![trigger self.receipts@[i], self.receipts@[j]]
                0 <= i < self.receipts.len() && 0 <= j < self.receipts.len() && i != j
                    implies self.receipts@[i].command_id@ != self.receipts@[j].command_id@ by {
                if i < mid.receipts.len() && j < mid.receipts.len() {
                    assert(self.receipts@[i] == mid.receipts@[i] && self.receipts@[j] == mid.receipts@[j]);
                } else if i < mid.receipts.len() {
                    assert(self.receipts@[i] == pre.receipts@[i]);
                } else {
                    assert(self.receipts@[j] == pre.receipts@[j]);
                }
            }
        }
        Ok(result)
    }
}

/// A command id that was accepted once is answered with the same response when it comes again,
/// whatever the repeated command asks, and the repeat changes nothing.
pub proof fn lemma_command_replay(
    pre: AuthorityState,
    mid: AuthorityState,
    post: AuthorityState,
    first: AuthorityCommand,
    again: AuthorityCommand,
    at1: i64,
    at2: i64,
    r1: Result<AuthorityMutationResult, OrcasError>,
    r2: Result<AuthorityMutationResult, OrcasError>,
)
    requires
        pre.wf(),
        mid.wf(),
        command_executed(pre, mid, first, at1, r1),
        r1 is Ok,
        again.spec_metadata().command_id@ == first.spec_metadata().command_id@,
        command_executed(mid, post, again, at2, r2),
    ensures
        r2 is Ok,
        r2->Ok_0 == r1->Ok_0,
        post == mid,
{
    let id = first.spec_metadata().command_id@;
    match receipt_pos(pre.receipts@, id) {
        Some(k) => {
            assert(mid == pre);
        },
        None => {
            let n = pre.receipts@.len() as int;
            assert(mid.receipts@[n].command_id@ == id);
            assert(receipt_pos(mid.receipts@, id) is Some);
            let k = receipt_pos(mid.receipts@, id)->0;
            if k != n {
                assert(mid.receipts@[k].command_id@ != mid.receipts@[n].command_id@);
            }
        },
    }
}

} // verus!
