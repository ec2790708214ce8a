//! Building an assignment's communication packet from its seed.

use vstd::prelude::*;

use super::seeds::{context_refs, item_texts, opt_view, packet_seed, SeedView};
use super::types::{AssignmentCommunicationRecord, AssignmentCommunicationSeed};
use crate::assignment_comm::policy::views;
use crate::assignment_comm::{
    AllowedScope, AssignmentCommunicationPacket, AssignmentModeSpec, AssignmentTaskMode, ContextBlock, ImplementModeSpec, PacketItem,
    WorkerReportContract, ASSIGNMENT_COMMUNICATION_PACKET_SCHEMA_VERSION, REPORT_MARKER_BEGIN, REPORT_MARKER_END,
    WORKER_REPORT_CONTRACT_SCHEMA_VERSION,
};
use crate::model::{copy_opt_string, copy_strings};
use crate::text::{cat2, decimal, decimal_string, owned};

verus! {

/// Whether `items` are the texts numbered in order: the `k`-th item has the id `prefix`
/// followed by `k + 1`, and the `k`-th text.
pub open spec fn numbered(items: Seq<PacketItem>, prefix: Seq<char>, texts: Seq<Seq<char>>) -> bool {
    &&& items.len() == texts.len()
    &&& forall|k: int| 0 <= k < items.len() ==> (#[trigger] items[k]).id@ == prefix + decimal((k + 1) as nat)
        && items[k].text@ == texts[k]
}

/// Whether `p` is the packet of assignment `assignment_id` built from the seed `seed` under
/// `packet_id`: the seed's objective, instructions and links; its acceptance criteria and stop
/// conditions numbered `ac-1`, `ac-2`, … and `sc-1`, …; its context references as one block;
/// its boundedness note as the non-goal; its verification commands in the implement mode; no
/// write restriction; the v1 report contract.
pub open spec fn packet_built(p: AssignmentCommunicationPacket, assignment_id: Seq<char>, packet_id: Seq<char>, seed: SeedView) -> bool {
    &&& p.schema_version@ == ASSIGNMENT_COMMUNICATION_PACKET_SCHEMA_VERSION@
    &&& p.packet_id@ == packet_id
    &&& p.assignment_id@ == assignment_id
    &&& opt_view(p.source_decision_id) == seed.source_decision_id
    &&& opt_view(p.source_report_id) == seed.source_report_id
    &&& opt_view(p.source_proposal_id) == seed.source_proposal_id
    &&& opt_view(p.predecessor_assignment_id) == seed.predecessor_assignment_id
    &&& p.task_mode == AssignmentTaskMode::Implement
    &&& (match p.mode_spec {
        AssignmentModeSpec::Implement(m) => views(m.expected_verification_commands@) == seed.verification_commands,
    })
    &&& p.objective@ == seed.objective
    &&& views(p.instructions@) == seed.instructions
    &&& views(p.non_goals@) == (match seed.boundedness_note {
        Some(n) => seq![n],
        None => Seq::<Seq<char>>::empty(),
    })
    &&& (if seed.required_context_refs.len() == 0 {
        p.included_context@.len() == 0
    } else {
        &&& p.included_context@.len() == 1
        &&& p.included_context@[0].id@ == "required_context_refs"@
        &&& p.included_context@[0].kind@ == "context_refs"@
        &&& views(p.included_context@[0].lines@) == seed.required_context_refs
    })
    &&& numbered(p.acceptance_criteria@, "ac-"@, seed.acceptance_criteria)
    &&& numbered(p.stop_conditions@, "sc-"@, seed.stop_conditions)
    &&& p.allowed_scope.allowed_write_paths@.len() == 0
    &&& p.response_contract.schema_version@ == WORKER_REPORT_CONTRACT_SCHEMA_VERSION@
    &&& p.response_contract.task_mode == p.task_mode
    &&& p.response_contract.marker_begin@ == REPORT_MARKER_BEGIN@
    &&& p.response_contract.marker_end@ == REPORT_MARKER_END@
}

fn numbered_items(prefix: &str, texts: &Vec<String>) -> (r: Vec<PacketItem>)
    ensures
        numbered(r@, prefix@, views(texts@)),
{
    let mut out: Vec<PacketItem> = Vec::new();
    let mut k: usize = 0;
    while k < texts.len()
        invariant
            k <= texts@.len(),
            out@.len() == k,
            forall|j: int| 0 <= j < k ==> (#[trigger] out@[j]).id@ == prefix@ + decimal((j + 1) as nat)
                && out@[j].text@ == texts@[j]@,
        decreases texts.len() - k,
    {
        let n = decimal_string((k + 1) as u64);
        let ghost before = out@;
        out.push(PacketItem { id: cat2(prefix, n.as_str()), text: texts[k].clone() });
        proof {
            assert forall|j: int| 0 <= j < k + 1 implies (#[trigger] out@[j]).id@ == prefix@ + decimal((j + 1) as nat)
                && out@[j].text@ == texts@[j]@ by {
                if j < k {
                    assert(out@[j] == before[j]);
                }
            }
        }
        k = k + 1;
    }
    out
}

/// Whether two mode specs ask for the same mode with the same verification commands.
pub open spec fn same_mode(a: AssignmentModeSpec, b: AssignmentModeSpec) -> bool {
    match (a, b) {
        (AssignmentModeSpec::Implement(x), AssignmentModeSpec::Implement(y)) => x.expected_verification_commands@
            == y.expected_verification_commands@,
    }
}

fn copy_mode(m: &AssignmentModeSpec) -> (r: AssignmentModeSpec)
    ensures
        same_mode(r, *m),
{
    match m {
        AssignmentModeSpec::Implement(s) => {
            let c = copy_strings(&s.expected_verification_commands);
            AssignmentModeSpec::Implement(ImplementModeSpec { expected_verification_commands: c })
        },
    }
}

/// The packet of an assignment built from its seed; reading the seed back from the packet gives
/// the seed again, but for the expected report fields, which a packet does not carry.
pub fn packet_from_seed(assignment_id: &str, packet_id: String, seed: &AssignmentCommunicationSeed) -> (r: AssignmentCommunicationPacket)
    ensures
        packet_built(r, assignment_id@, packet_id@, seed@),
        packet_seed(r) == (SeedView { expected_report_fields: Seq::empty(), ..seed@ }),
{
    let task_mode = seed.mode_spec.task_mode();
    let mut included_context: Vec<ContextBlock> = Vec::new();
    if seed.required_context_refs.len() > 0 {
        included_context.push(ContextBlock {
            id: owned("required_context_refs"),
            kind: owned("context_refs"),
            lines: copy_strings(&seed.required_context_refs),
        });
    }
    let mut non_goals: Vec<String> = Vec::new();
    match &seed.boundedness_note {
        Some(n) => non_goals.push(n.clone()),
        None => {},
    }
    let p = AssignmentCommunicationPacket {
        schema_version: owned(ASSIGNMENT_COMMUNICATION_PACKET_SCHEMA_VERSION),
        packet_id,
        assignment_id: owned(assignment_id),
        source_decision_id: copy_opt_string(&seed.source_decision_id),
        source_report_id: copy_opt_string(&seed.source_report_id),
        source_proposal_id: copy_opt_string(&seed.source_proposal_id),
        predecessor_assignment_id: copy_opt_string(&seed.predecessor_assignment_id),
        task_mode,
        mode_spec: copy_mode(&seed.mode_spec),
        objective: seed.objective.clone(),
        instructions: copy_strings(&seed.instructions),
        non_goals,
        included_context,
        acceptance_criteria: numbered_items("ac-", &seed.acceptance_criteria),
        stop_conditions: numbered_items("sc-", &seed.stop_conditions),
        allowed_scope: AllowedScope { allowed_write_paths: Vec::new() },
        response_contract: WorkerReportContract {
            schema_version: owned(WORKER_REPORT_CONTRACT_SCHEMA_VERSION),
            task_mode,
            marker_begin: owned(REPORT_MARKER_BEGIN),
            marker_end: owned(REPORT_MARKER_END),
        },
    };
    proof {
        assert(views(p.non_goals@) =~= (match seed.boundedness_note {
            Some(n) => seq![n@],
            None => Seq::<Seq<char>>::empty(),
        }));
        assert(item_texts(p.acceptance_criteria@) =~= views(seed.acceptance_criteria@));
        assert(item_texts(p.stop_conditions@) =~= views(seed.stop_conditions@));
        if seed.required_context_refs@.len() == 0 {
            assert(context_refs(p.included_context@) =~= views(seed.required_context_refs@));
        } else {
            assert(p.included_context@.drop_last() =~= Seq::<ContextBlock>::empty());
            assert(context_refs(Seq::<ContextBlock>::empty()) == Seq::<Seq<char>>::empty());
            assert(p.included_context@.last().lines@ == seed.required_context_refs@);
            assert(context_refs(p.included_context@) =~= views(seed.required_context_refs@));
        }
        assert(packet_seed(p) =~= (SeedView { expected_report_fields: Seq::empty(), ..seed@ }));
    }
    p
}

/// The communication record of an assignment whose packet is built from `seed`, with no
/// response yet.
pub fn communication_record_from_seed(assignment_id: &str, packet_id: String, seed: &AssignmentCommunicationSeed) -> (r: AssignmentCommunicationRecord)
    ensures
        r.assignment_id@ == assignment_id@,
        packet_built(r.packet, assignment_id@, packet_id@, seed@),
        r.response_envelope is None,
        r.validation is None,
        r.raw_output_hash is None,
{
    AssignmentCommunicationRecord {
        assignment_id: owned(assignment_id),
        packet: packet_from_seed(assignment_id, packet_id, seed),
        response_envelope: None,
        validation: None,
        raw_output_hash: None,
    }
}

} // verus!
