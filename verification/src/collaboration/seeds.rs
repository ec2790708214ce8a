use vstd::prelude::*;

use super::types::{Assignment, AssignmentCommunicationRecord, AssignmentCommunicationSeed, WorkUnit};
use crate::assignment_comm::policy::views;
use crate::assignment_comm::{
    AssignmentCommunicationPacket, AssignmentModeSpec, ContextBlock, ImplementModeSpec, PacketItem,
};
use crate::model::{copy_opt_string, copy_strings};
use crate::text::{cat2, is_blank, owned, str_eq, str_is_blank, str_trim, trimmed};

verus! {

/// The text of an optional string.
pub open spec fn opt_view(o: Option<String>) -> Option<Seq<char>> {
    match o {
        Some(s) => Some(s@),
        None => None,
    }
}

/// The contents of a seed, for contracts.
#[verifier::ext_equal]
pub ghost struct SeedView {
    pub source_decision_id: Option<Seq<char>>,
    pub source_report_id: Option<Seq<char>>,
    pub source_proposal_id: Option<Seq<char>>,
    pub predecessor_assignment_id: Option<Seq<char>>,
    pub objective: Seq<char>,
    pub instructions: Seq<Seq<char>>,
    pub acceptance_criteria: Seq<Seq<char>>,
    pub stop_conditions: Seq<Seq<char>>,
    pub required_context_refs: Seq<Seq<char>>,
    pub expected_report_fields: Seq<Seq<char>>,
    pub boundedness_note: Option<Seq<char>>,
    pub verification_commands: Seq<Seq<char>>,
}

impl View for AssignmentCommunicationSeed {
    type V = SeedView;

    open spec fn view(&self) -> SeedView {
        SeedView {
            source_decision_id: opt_view(self.source_decision_id),
            source_report_id: opt_view(self.source_report_id),
            source_proposal_id: opt_view(self.source_proposal_id),
            predecessor_assignment_id: opt_view(self.predecessor_assignment_id),
            objective: self.objective@,
            instructions: views(self.instructions@),
            acceptance_criteria: views(self.acceptance_criteria@),
            stop_conditions: views(self.stop_conditions@),
            required_context_refs: views(self.required_context_refs@),
            expected_report_fields: views(self.expected_report_fields@),
            boundedness_note: opt_view(self.boundedness_note),
            verification_commands: match self.mode_spec {
                AssignmentModeSpec::Implement(m) => views(m.expected_verification_commands@),
            },
        }
    }
}

fn copy_mode_spec(m: &AssignmentModeSpec) -> (r: AssignmentModeSpec)
    ensures
        match (r, *m) {
            (AssignmentModeSpec::Implement(a), AssignmentModeSpec::Implement(b)) => a.expected_verification_commands@
                == b.expected_verification_commands@,
        },
{
    match m {
        AssignmentModeSpec::Implement(s) => AssignmentModeSpec::Implement(ImplementModeSpec {
            expected_verification_commands: copy_strings(&s.expected_verification_commands),
        }),
    }
}

impl AssignmentCommunicationSeed {
    /// A copy of the seed.
    pub fn copy(&self) -> (r: Self)
        ensures
            r@ == self@,
    {
        AssignmentCommunicationSeed {
            source_decision_id: copy_opt_string(&self.source_decision_id),
            source_report_id: copy_opt_string(&self.source_report_id),
            source_proposal_id: copy_opt_string(&self.source_proposal_id),
            predecessor_assignment_id: copy_opt_string(&self.predecessor_assignment_id),
            objective: self.objective.clone(),
            instructions: copy_strings(&self.instructions),
            acceptance_criteria: copy_strings(&self.acceptance_criteria),
            stop_conditions: copy_strings(&self.stop_conditions),
            required_context_refs: copy_strings(&self.required_context_refs),
            expected_report_fields: copy_strings(&self.expected_report_fields),
            boundedness_note: copy_opt_string(&self.boundedness_note),
            mode_spec: copy_mode_spec(&self.mode_spec),
        }
    }
}

/// The instruction lines a manual start adds: the trimmed instructions, unless they are empty or
/// repeat the task statement.
pub open spec fn manual_lines(task_statement: Seq<char>, instructions: Option<Seq<char>>) -> Seq<Seq<char>> {
    match instructions {
        None => Seq::empty(),
        Some(i) => if trimmed(i).len() == 0 || trimmed(i) == task_statement {
            Seq::empty()
        } else {
            seq![trimmed(i)]
        },
    }
}

/// The instruction lines a manual start adds.
pub fn manual_instruction_lines(work_unit: &WorkUnit, instructions: Option<&str>) -> (r: Vec<String>)
    ensures
        views(r@) == manual_lines(work_unit.task_statement@, match instructions {
            Some(i) => Some(i@),
            None => None,
        }),
{
    let mut out: Vec<String> = Vec::new();
    match instructions {
        None => {
            assert(views(out@) =~= Seq::<Seq<char>>::empty());
        },
        Some(i) => {
            let t = str_trim(i);
            if t.unicode_len() == 0 || str_eq(t, work_unit.task_statement.as_str()) {
                assert(views(out@) =~= Seq::<Seq<char>>::empty());
            } else {
                out.push(owned(t));
                assert(views(out@) =~= seq![t@]);
            }
        },
    }
    out
}

/// The seed of a manually started implement-mode assignment.
pub open spec fn manual_seed(
    task_statement: Seq<char>,
    title: Seq<char>,
    instructions: Option<Seq<char>>,
    source_report_id: Option<Seq<char>>,
) -> SeedView {
    SeedView {
        source_decision_id: None,
        source_report_id: source_report_id,
        source_proposal_id: None,
        predecessor_assignment_id: None,
        objective: if !is_blank(task_statement) {
            task_statement
        } else if instructions is Some && !is_blank(instructions->0) {
            trimmed(instructions->0)
        } else {
            "Complete the bounded work for "@ + title
        },
        instructions: manual_lines(task_statement, instructions),
        acceptance_criteria: Seq::empty(),
        stop_conditions: Seq::empty(),
        required_context_refs: Seq::empty(),
        expected_report_fields: Seq::empty(),
        boundedness_note: None,
        verification_commands: Seq::empty(),
    }
}

/// The seed of a manually started implement-mode assignment.
pub fn manual_implement_assignment_seed(
    work_unit: &WorkUnit,
    instructions: Option<&str>,
    source_report_id: Option<String>,
) -> (r: AssignmentCommunicationSeed)
    ensures
        r@ == manual_seed(
            work_unit.task_statement@,
            work_unit.title@,
            match instructions {
                Some(i) => Some(i@),
                None => None,
            },
            opt_view(source_report_id),
        ),
{
    let objective = if !str_is_blank(work_unit.task_statement.as_str()) {
        work_unit.task_statement.clone()
    } else {
        match instructions {
            Some(i) => if !str_is_blank(i) {
                proof {
                    assert(!is_blank(i@));
                }
                owned(str_trim(i))
            } else {
                cat2("Complete the bounded work for ", work_unit.title.as_str())
            },
            None => cat2("Complete the bounded work for ", work_unit.title.as_str()),
        }
    };
    let lines = manual_instruction_lines(work_unit, instructions);
    let r = AssignmentCommunicationSeed {
        source_decision_id: None,
        source_report_id,
        source_proposal_id: None,
        predecessor_assignment_id: None,
        objective,
        instructions: lines,
        acceptance_criteria: Vec::new(),
        stop_conditions: Vec::new(),
        required_context_refs: Vec::new(),
        expected_report_fields: Vec::new(),
        boundedness_note: None,
        mode_spec: AssignmentModeSpec::Implement(ImplementModeSpec { expected_verification_commands: Vec::new() }),
    };
    proof {
        assert(views(r.acceptance_criteria@) =~= Seq::<Seq<char>>::empty());
        assert(views(r.stop_conditions@) =~= Seq::<Seq<char>>::empty());
        assert(views(r.required_context_refs@) =~= Seq::<Seq<char>>::empty());
        assert(views(r.expected_report_fields@) =~= Seq::<Seq<char>>::empty());
        match &r.mode_spec {
            AssignmentModeSpec::Implement(m) => {
                assert(views(m.expected_verification_commands@) =~= Seq::<Seq<char>>::empty());
            },
        }
    }
    r
}

/// Whether a context block lists required context references.
pub open spec fn is_context_refs(b: ContextBlock) -> bool {
    b.kind@ == "context_refs"@ || b.id@ == "required_context_refs"@
}

/// The lines of the context-reference blocks, in order.
pub open spec fn context_refs(blocks: Seq<ContextBlock>) -> Seq<Seq<char>>
    decreases blocks.len(),
{
    if blocks.len() == 0 {
        Seq::empty()
    } else {
        context_refs(blocks.drop_last()) + if is_context_refs(blocks.last()) {
            views(blocks.last().lines@)
        } else {
            Seq::empty()
        }
    }
}

/// The texts of packet items.
pub open spec fn item_texts(items: Seq<PacketItem>) -> Seq<Seq<char>> {
    items.map_values(|i: PacketItem| i.text@)
}

/// The seed a packet was built from, as far as the packet shows it.
pub open spec fn packet_seed(p: AssignmentCommunicationPacket) -> SeedView {
    SeedView {
        source_decision_id: opt_view(p.source_decision_id),
        source_report_id: opt_view(p.source_report_id),
        source_proposal_id: opt_view(p.source_proposal_id),
        predecessor_assignment_id: opt_view(p.predecessor_assignment_id),
        objective: p.objective@,
        instructions: views(p.instructions@),
        acceptance_criteria: item_texts(p.acceptance_criteria@),
        stop_conditions: item_texts(p.stop_conditions@),
        required_context_refs: context_refs(p.included_context@),
        expected_report_fields: Seq::empty(),
        boundedness_note: if p.non_goals@.len() > 0 { Some(p.non_goals@[0]@) } else { None },
        verification_commands: match p.mode_spec {
            AssignmentModeSpec::Implement(m) => views(m.expected_verification_commands@),
        },
    }
}

fn texts_of(items: &Vec<PacketItem>) -> (r: Vec<String>)
    ensures
        views(r@) == item_texts(items@),
{
    let mut out: Vec<String> = Vec::new();
    let mut i: usize = 0;
    while i < items.len()
        invariant
            i <= items@.len(),
            views(out@) == item_texts(items@.take(i as int)),
        decreases items.len() - i,
    {
        let ghost before = out@;
        out.push(items[i].text.clone());
        proof {
            assert(views(out@) =~= views(before).push(items@[i as int].text@));
            assert(item_texts(items@.take(i + 1)) =~= item_texts(items@.take(i as int)).push(items@[i as int].text@));
        }
        i = i + 1;
    }
    assert(items@.take(i as int) =~= items@);
    out
}

/// The seed a packet was built from.
pub fn assignment_communication_seed_from_packet(packet: &AssignmentCommunicationPacket) -> (r: AssignmentCommunicationSeed)
    ensures
        r@ == packet_seed(*packet),
{
    let mut refs: Vec<String> = Vec::new();
    let mut b: usize = 0;
    assert(packet.included_context@.take(0) =~= Seq::<ContextBlock>::empty());
    assert(views(refs@) =~= Seq::<Seq<char>>::empty());
    while b < packet.included_context.len()
        invariant
            b <= packet.included_context@.len(),
            views(refs@) == context_refs(packet.included_context@.take(b as int)),
        decreases packet.included_context.len() - b,
    {
        let block = &packet.included_context[b];
        let ghost before = views(refs@);
        proof {
            assert(packet.included_context@.take(b + 1).drop_last() =~= packet.included_context@.take(b as int));
        }
        if str_eq(block.kind.as_str(), "context_refs") || str_eq(block.id.as_str(), "required_context_refs") {
            let mut k: usize = 0;
            while k < block.lines.len()
                invariant
                    k <= block.lines@.len(),
                    views(refs@) == before + views(block.lines@.take(k as int)),
                decreases block.lines.len() - k,
            {
                let ghost mid = refs@;
                refs.push(block.lines[k].clone());
                proof {
                    assert(block.lines@.take(k + 1) =~= block.lines@.take(k as int).push(block.lines@[k as int]));
                    assert(views(refs@) =~= views(mid).push(block.lines@[k as int]@));
                    assert(views(block.lines@.take(k + 1)) =~= views(block.lines@.take(k as int)).push(block.lines@[k as int]@));
                }
                k = k + 1;
            }
            assert(block.lines@.take(k as int) =~= block.lines@);
        } else {
            assert(views(refs@) =~= before + Seq::<Seq<char>>::empty());
        }
        b = b + 1;
    }
    assert(packet.included_context@.take(b as int) =~= packet.included_context@);
    let note = if packet.non_goals.len() > 0 {
        Some(packet.non_goals[0].clone())
    } else {
        None
    };
    let r = AssignmentCommunicationSeed {
        source_decision_id: copy_opt_string(&packet.source_decision_id),
        source_report_id: copy_opt_string(&packet.source_report_id),
        source_proposal_id: copy_opt_string(&packet.source_proposal_id),
        predecessor_assignment_id: copy_opt_string(&packet.predecessor_assignment_id),
        objective: packet.objective.clone(),
        instructions: copy_strings(&packet.instructions),
        acceptance_criteria: texts_of(&packet.acceptance_criteria),
        stop_conditions: texts_of(&packet.stop_conditions),
        required_context_refs: refs,
        expected_report_fields: Vec::new(),
        boundedness_note: note,
        mode_spec: copy_mode_spec(&packet.mode_spec),
    };
    proof {
        assert(views(r.expected_report_fields@) =~= Seq::<Seq<char>>::empty());
    }
    r
}

/// The seed of the assignment that continues `source`: an explicit seed if given, else the
/// source's seed, else what its packet shows, else a manual one; then tied to the decision, the
/// report and the source assignment. Overriding instructions replace the inherited ones unless
/// the seed was explicit; a proposal link survives only in an explicit seed.
pub open spec fn next_seed(
    work_unit: WorkUnit,
    source: Assignment,
    record: Option<AssignmentCommunicationRecord>,
    report_id: Option<Seq<char>>,
    decision_id: Seq<char>,
    override_instructions: Option<Seq<char>>,
    explicit: Option<AssignmentCommunicationSeed>,
) -> SeedView {
    let base = if explicit is Some {
        explicit->0@
    } else if source.communication_seed is Some {
        source.communication_seed->0@
    } else if record is Some {
        packet_seed(record->0.packet)
    } else {
        manual_seed(work_unit.task_statement@, work_unit.title@, Some(source.instructions@), report_id)
    };
    SeedView {
        instructions: if explicit is None && override_instructions is Some {
            manual_lines(work_unit.task_statement@, override_instructions)
        } else {
            base.instructions
        },
        source_decision_id: Some(decision_id),
        source_report_id: report_id,
        predecessor_assignment_id: Some(source.id@),
        source_proposal_id: if explicit is None { None } else { base.source_proposal_id },
        ..base
    }
}

/// The seed of the assignment that continues `source_assignment` after a decision.
pub fn next_assignment_communication_seed(
    work_unit: &WorkUnit,
    source_assignment: &Assignment,
    source_record: Option<&AssignmentCommunicationRecord>,
    report_id: Option<String>,
    decision_id: &str,
    override_instructions: Option<&str>,
    explicit_seed: Option<AssignmentCommunicationSeed>,
) -> (r: AssignmentCommunicationSeed)
    ensures
        r@ == next_seed(
            *work_unit,
            *source_assignment,
            match source_record {
                Some(x) => Some(*x),
                None => None,
            },
            opt_view(report_id),
            decision_id@,
            match override_instructions {
                Some(i) => Some(i@),
                None => None,
            },
            explicit_seed,
        ),
{
    let has_explicit_seed = explicit_seed.is_some();
    let mut seed = match explicit_seed {
        Some(s) => s,
        None => match &source_assignment.communication_seed {
            Some(s) => s.copy(),
            None => match source_record {
                Some(record) => assignment_communication_seed_from_packet(&record.packet),
                None => manual_implement_assignment_seed(
                    work_unit,
                    Some(source_assignment.instructions.as_str()),
                    copy_opt_string(&report_id),
                ),
            },
        },
    };
    if !has_explicit_seed && override_instructions.is_some() {
        seed.instructions = manual_instruction_lines(work_unit, override_instructions);
    }
    seed.source_decision_id = Some(owned(decision_id));
    seed.source_report_id = report_id;
    seed.predecessor_assignment_id = Some(source_assignment.id.clone());
    if !has_explicit_seed {
        seed.source_proposal_id = None;
    }
    seed
}

} // verus!
