use vstd::prelude::*;

use super::{
    AcceptanceResult, AssignmentCommunicationPacket, EnvelopeValidationResult, PacketItem,
    ReportConfidence, ReportDisposition, ReportParseResult, ReviewSignalLevel, TouchedFile,
    WorkerReportEnvelope, ASSIGNMENT_COMMUNICATION_PACKET_SCHEMA_VERSION, REPORT_MARKER_BEGIN,
    REPORT_MARKER_END, WORKER_REPORT_CONTRACT_SCHEMA_VERSION,
    WORKER_REPORT_ENVELOPE_SCHEMA_VERSION,
};
use crate::model::{OrcasError, OrcasErrorView};
use crate::text::{cat3, cat5, is_blank, owned, starts_with, str_eq, str_is_blank, str_starts_with};

verus! {

/// Why a packet is not one a v1 implement-mode worker can act on, if it is not.
pub open spec fn packet_error(p: AssignmentCommunicationPacket) -> Option<Seq<char>> {
    if p.schema_version@ != ASSIGNMENT_COMMUNICATION_PACKET_SCHEMA_VERSION@ {
        Some("unsupported assignment communication packet schema `"@ + p.schema_version@ + "`"@)
    } else if is_blank(p.assignment_id@) || is_blank(p.packet_id@) {
        Some("assignment communication packet requires assignment_id and packet_id"@)
    } else if p.mode_spec.spec_task_mode() != p.task_mode {
        Some("assignment communication packet mode_spec does not match task_mode"@)
    } else if p.acceptance_criteria@.len() == 0 {
        Some("assignment communication packet requires at least one acceptance criterion"@)
    } else if p.stop_conditions@.len() == 0 {
        Some("assignment communication packet requires at least one stop condition"@)
    } else if p.response_contract.schema_version@ != WORKER_REPORT_CONTRACT_SCHEMA_VERSION@ {
        Some("unsupported worker report contract schema `"@ + p.response_contract.schema_version@ + "`"@)
    } else if p.response_contract.task_mode != p.task_mode {
        Some("worker report contract task_mode does not match packet task_mode"@)
    } else if p.response_contract.marker_begin@ != REPORT_MARKER_BEGIN@
        || p.response_contract.marker_end@ != REPORT_MARKER_END@ {
        Some("worker report contract markers do not match Orcas v1 markers"@)
    } else {
        None
    }
}

fn protocol(message: String) -> (r: Result<(), OrcasError>)
    ensures
        r is Err && r->Err_0@ == OrcasErrorView::Protocol(message@),
{
    Err(OrcasError::Protocol(message))
}

/// Checks that a packet is one a v1 implement-mode worker can act on.
pub fn validate_assignment_packet(packet: &AssignmentCommunicationPacket) -> (r: Result<(), OrcasError>)
    ensures
        match packet_error(*packet) {
            Some(m) => r is Err && r->Err_0@ == OrcasErrorView::Protocol(m),
            None => r is Ok,
        },
{
    if !str_eq(packet.schema_version.as_str(), ASSIGNMENT_COMMUNICATION_PACKET_SCHEMA_VERSION) {
        return protocol(cat3("unsupported assignment communication packet schema `", packet.schema_version.as_str(), "`"));
    }
    if str_is_blank(packet.assignment_id.as_str()) || str_is_blank(packet.packet_id.as_str()) {
        return protocol(owned("assignment communication packet requires assignment_id and packet_id"));
    }
    if packet.mode_spec.task_mode() != packet.task_mode {
        return protocol(owned("assignment communication packet mode_spec does not match task_mode"));
    }
    if packet.acceptance_criteria.len() == 0 {
        return protocol(owned("assignment communication packet requires at least one acceptance criterion"));
    }
    if packet.stop_conditions.len() == 0 {
        return protocol(owned("assignment communication packet requires at least one stop condition"));
    }
    if !str_eq(packet.response_contract.schema_version.as_str(), WORKER_REPORT_CONTRACT_SCHEMA_VERSION) {
        return protocol(cat3("unsupported worker report contract schema `", packet.response_contract.schema_version.as_str(), "`"));
    }
    if packet.response_contract.task_mode != packet.task_mode {
        return protocol(owned("worker report contract task_mode does not match packet task_mode"));
    }
    if !str_eq(packet.response_contract.marker_begin.as_str(), REPORT_MARKER_BEGIN)
        || !str_eq(packet.response_contract.marker_end.as_str(), REPORT_MARKER_END) {
        return protocol(owned("worker report contract markers do not match Orcas v1 markers"));
    }
    Ok(())
}

/// A message when a condition holds, else nothing.
pub open spec fn issue_if(cond: bool, message: Seq<char>) -> Seq<Seq<char>> {
    if cond {
        seq![message]
    } else {
        Seq::empty()
    }
}

/// Whether a packet item has this id.
pub open spec fn has_item(items: Seq<PacketItem>, id: Seq<char>) -> bool {
    exists|k: int| 0 <= k < items.len() && (#[trigger] items[k]).id@ == id
}

/// Whether a path lies under one of the allowed prefixes.
pub open spec fn under_some_prefix(prefixes: Seq<String>, path: Seq<char>) -> bool {
    exists|k: int| 0 <= k < prefixes.len() && starts_with(path, (#[trigger] prefixes[k])@)
}

/// One message per acceptance result whose criterion the packet does not have, in order.
pub open spec fn unknown_criteria(results: Seq<AcceptanceResult>, items: Seq<PacketItem>) -> Seq<Seq<char>>
    decreases results.len(),
{
    if results.len() == 0 {
        Seq::empty()
    } else {
        let id = results.last().criterion_id@;
        unknown_criteria(results.drop_last(), items) + issue_if(
            !has_item(items, id),
            "worker report referenced unknown acceptance criterion `"@ + id + "`"@,
        )
    }
}

/// One message per triggered stop condition the packet does not have, in order.
pub open spec fn unknown_stop_conditions(ids: Seq<String>, items: Seq<PacketItem>) -> Seq<Seq<char>>
    decreases ids.len(),
{
    if ids.len() == 0 {
        Seq::empty()
    } else {
        let id = ids.last()@;
        unknown_stop_conditions(ids.drop_last(), items) + issue_if(
            !has_item(items, id),
            "worker report referenced unknown stop condition `"@ + id + "`"@,
        )
    }
}

/// One message per touched file outside the allowed write paths, in order; none when every path
/// is allowed.
pub open spec fn scope_violations(files: Seq<TouchedFile>, prefixes: Seq<String>) -> Seq<Seq<char>>
    decreases files.len(),
{
    if files.len() == 0 {
        Seq::empty()
    } else {
        let path = files.last().path@;
        scope_violations(files.drop_last(), prefixes) + issue_if(
            prefixes.len() > 0 && !under_some_prefix(prefixes, path),
            "touched file `"@ + path + "` is outside allowed_write_paths"@,
        )
    }
}

/// The structural issues of an envelope, in the order they are checked.
pub open spec fn structural_issues(e: WorkerReportEnvelope, assignment_id: Seq<char>, p: AssignmentCommunicationPacket, surrounding_text: bool) -> Seq<Seq<char>> {
    issue_if(surrounding_text, "worker output contained extra text outside the Orcas report envelope"@)
        + issue_if(
        e.schema_version@ != WORKER_REPORT_ENVELOPE_SCHEMA_VERSION@,
        "unsupported worker report envelope schema `"@ + e.schema_version@ + "`"@,
    ) + issue_if(
        e.assignment_id@ != assignment_id,
        "worker report assignment_id `"@ + e.assignment_id@ + "` does not match assignment `"@ + assignment_id + "`"@,
    ) + issue_if(
        e.packet_id@ != p.packet_id@,
        "worker report packet_id `"@ + e.packet_id@ + "` does not match packet `"@ + p.packet_id@ + "`"@,
    ) + issue_if(e.task_mode != p.task_mode, "worker report task_mode does not match packet task_mode"@)
        + issue_if(
        e.mode_payload.spec_task_mode() != p.task_mode,
        "worker report mode_payload variant does not match packet task_mode"@,
    ) + issue_if(is_blank(e.summary@), "worker report summary was empty"@) + issue_if(
        e.disposition == ReportDisposition::Unknown,
        "worker report disposition was unknown"@,
    ) + issue_if(e.confidence == ReportConfidence::Unknown, "worker report confidence was unknown"@)
}

/// Whether the envelope asks for review without giving a reason.
pub open spec fn review_without_reason(e: WorkerReportEnvelope) -> bool {
    e.review_signal.level == ReviewSignalLevel::Required && e.review_signal.reasons@.len() == 0
}

/// The semantic issues of an envelope, in the order they are checked.
pub open spec fn semantic_issues(e: WorkerReportEnvelope, p: AssignmentCommunicationPacket) -> Seq<Seq<char>> {
    issue_if(review_without_reason(e), "review_signal.level=required should include at least one reason"@)
        + unknown_criteria(e.acceptance_results@, p.acceptance_criteria@)
        + unknown_stop_conditions(e.triggered_stop_condition_ids@, p.stop_conditions@)
}

/// Whether something makes the envelope untrustworthy outright.
pub open spec fn envelope_invalid(e: WorkerReportEnvelope, assignment_id: Seq<char>, p: AssignmentCommunicationPacket) -> bool {
    ||| e.schema_version@ != WORKER_REPORT_ENVELOPE_SCHEMA_VERSION@
    ||| e.assignment_id@ != assignment_id
    ||| e.packet_id@ != p.packet_id@
    ||| e.task_mode != p.task_mode
    ||| e.mode_payload.spec_task_mode() != p.task_mode
    ||| is_blank(e.summary@)
    ||| e.disposition == ReportDisposition::Unknown
    ||| e.confidence == ReportConfidence::Unknown
    ||| unknown_criteria(e.acceptance_results@, p.acceptance_criteria@).len() > 0
    ||| unknown_stop_conditions(e.triggered_stop_condition_ids@, p.stop_conditions@).len() > 0
}

/// How far the envelope can be trusted.
pub open spec fn envelope_parse_result(e: WorkerReportEnvelope, assignment_id: Seq<char>, p: AssignmentCommunicationPacket, surrounding_text: bool) -> ReportParseResult {
    if envelope_invalid(e, assignment_id, p) {
        ReportParseResult::Invalid
    } else if surrounding_text || review_without_reason(e) || scope_violations(e.touched_files@, p.allowed_scope.allowed_write_paths@).len() > 0 {
        ReportParseResult::Ambiguous
    } else {
        ReportParseResult::Parsed
    }
}

/// The views of a list of strings.
pub open spec fn views(v: Seq<String>) -> Seq<Seq<char>> {
    v.map_values(|s: String| s@)
}

fn push_issue(v: &mut Vec<String>, message: String)
    ensures
        views(final(v)@) == views(old(v)@).push(message@),
{
    let ghost before = v@;
    v.push(message);
    assert(views(v@) =~= views(before).push(message@));
}

fn packet_has_item(items: &Vec<PacketItem>, id: &str) -> (r: bool)
    ensures
        r == has_item(items@, id@),
{
    let mut k: usize = 0;
    while k < items.len()
        invariant
            k <= items@.len(),
            forall|j: int| 0 <= j < k ==> (#[trigger] items@[j]).id@ != id@,
        decreases items.len() - k,
    {
        if str_eq(items[k].id.as_str(), id) {
            return true;
        }
        k = k + 1;
    }
    false
}

fn path_allowed(prefixes: &Vec<String>, path: &str) -> (r: bool)
    ensures
        r == under_some_prefix(prefixes@, path@),
{
    let mut k: usize = 0;
    while k < prefixes.len()
        invariant
            k <= prefixes@.len(),
            forall|j: int| 0 <= j < k ==> !starts_with(path@, (#[trigger] prefixes@[j])@),
        decreases prefixes.len() - k,
    {
        if str_starts_with(path, prefixes[k].as_str()) {
            return true;
        }
        k = k + 1;
    }
    false
}

/// Whether the structural checks found the envelope invalid.
pub open spec fn structurally_invalid(e: WorkerReportEnvelope, assignment_id: Seq<char>, p: AssignmentCommunicationPacket) -> bool {
    ||| e.schema_version@ != WORKER_REPORT_ENVELOPE_SCHEMA_VERSION@
    ||| e.assignment_id@ != assignment_id
    ||| e.packet_id@ != p.packet_id@
    ||| e.task_mode != p.task_mode
    ||| e.mode_payload.spec_task_mode() != p.task_mode
    ||| is_blank(e.summary@)
    ||| e.disposition == ReportDisposition::Unknown
    ||| e.confidence == ReportConfidence::Unknown
}

#[verifier::rlimit(40)]
fn check_structure(envelope: &WorkerReportEnvelope, assignment_id: &str, packet: &AssignmentCommunicationPacket, surrounding_text: bool) -> (r: (Vec<String>, bool))
    ensures
        views(r.0@) == structural_issues(*envelope, assignment_id@, *packet, surrounding_text),
        r.1 == structurally_invalid(*envelope, assignment_id@, *packet),
{
    let mut structural: Vec<String> = Vec::new();
    let mut invalid = false;
    assert(views(structural@) =~= Seq::<Seq<char>>::empty());
    if surrounding_text {
        push_issue(&mut structural, owned("worker output contained extra text outside the Orcas report envelope"));
    }
    if !str_eq(envelope.schema_version.as_str(), WORKER_REPORT_ENVELOPE_SCHEMA_VERSION) {
        push_issue(&mut structural, cat3("unsupported worker report envelope schema `", envelope.schema_version.as_str(), "`"));
        invalid = true;
    }
    if !str_eq(envelope.assignment_id.as_str(), assignment_id) {
        let m = cat5("worker report assignment_id `", envelope.assignment_id.as_str(), "` does not match assignment `", assignment_id, "`");
        push_issue(&mut structural, m);
        invalid = true;
    }
    if !str_eq(envelope.packet_id.as_str(), packet.packet_id.as_str()) {
        let m = cat5("worker report packet_id `", envelope.packet_id.as_str(), "` does not match packet `", packet.packet_id.as_str(), "`");
        push_issue(&mut structural, m);
        invalid = true;
    }
    if envelope.task_mode != packet.task_mode {
        push_issue(&mut structural, owned("worker report task_mode does not match packet task_mode"));
        invalid = true;
    }
    if envelope.mode_payload.task_mode() != packet.task_mode {
        push_issue(&mut structural, owned("worker report mode_payload variant does not match packet task_mode"));
        invalid = true;
    }
    if str_is_blank(envelope.summary.as_str()) {
        push_issue(&mut structural, owned("worker report summary was empty"));
        invalid = true;
    }
    if envelope.disposition == ReportDisposition::Unknown {
        push_issue(&mut structural, owned("worker report disposition was unknown"));
        invalid = true;
    }
    if envelope.confidence == ReportConfidence::Unknown {
        push_issue(&mut structural, owned("worker report confidence was unknown"));
        invalid = true;
    }
    proof {
        assert(views(structural@) =~= structural_issues(*envelope, assignment_id@, *packet, surrounding_text));
    }
    (structural, invalid)
}

fn check_criteria(results: &Vec<AcceptanceResult>, items: &Vec<PacketItem>, semantic: &mut Vec<String>)
    ensures
        views(final(semantic)@) == views(old(semantic)@) + unknown_criteria(results@, items@),
{
    let ghost head = views(semantic@);
    let mut k: usize = 0;
    assert(results@.take(0) =~= Seq::<AcceptanceResult>::empty());
    assert(views(semantic@) =~= head + unknown_criteria(results@.take(0), items@));
    while k < results.len()
        invariant
            k <= results@.len(),
            views(semantic@) == head + unknown_criteria(results@.take(k as int), items@),
        decreases results.len() - k,
    {
        let id = results[k].criterion_id.as_str();
        proof {
            assert(results@.take(k + 1).drop_last() =~= results@.take(k as int));
        }
        if !packet_has_item(items, id) {
            push_issue(semantic, cat3("worker report referenced unknown acceptance criterion `", id, "`"));
        }
        proof {
            assert(views(semantic@) =~= head + unknown_criteria(results@.take(k + 1), items@));
        }
        k = k + 1;
    }
    assert(results@.take(k as int) =~= results@);
}

fn check_stop_conditions(ids: &Vec<String>, items: &Vec<PacketItem>, semantic: &mut Vec<String>)
    ensures
        views(final(semantic)@) == views(old(semantic)@) + unknown_stop_conditions(ids@, items@),
{
    let ghost head = views(semantic@);
    let mut s: usize = 0;
    assert(ids@.take(0) =~= Seq::<String>::empty());
    assert(views(semantic@) =~= head + unknown_stop_conditions(ids@.take(0), items@));
    while s < ids.len()
        invariant
            s <= ids@.len(),
            views(semantic@) == head + unknown_stop_conditions(ids@.take(s as int), items@),
        decreases ids.len() - s,
    {
        let id = ids[s].as_str();
        proof {
            assert(ids@.take(s + 1).drop_last() =~= ids@.take(s as int));
        }
        if !packet_has_item(items, id) {
            push_issue(semantic, cat3("worker report referenced unknown stop condition `", id, "`"));
        }
        proof {
            assert(views(semantic@) =~= head + unknown_stop_conditions(ids@.take(s + 1), items@));
        }
        s = s + 1;
    }
    assert(ids@.take(s as int) =~= ids@);
}

fn check_scope(files: &Vec<TouchedFile>, prefixes: &Vec<String>) -> (r: Vec<String>)
    ensures
        views(r@) == scope_violations(files@, prefixes@),
{
    let mut policy: Vec<String> = Vec::new();
    let mut f: usize = 0;
    assert(views(policy@) =~= Seq::<Seq<char>>::empty());
    assert(files@.take(0) =~= Seq::<TouchedFile>::empty());
    while f < files.len()
        invariant
            f <= files@.len(),
            views(policy@) == scope_violations(files@.take(f as int), prefixes@),
        decreases files.len() - f,
    {
        let path = files[f].path.as_str();
        proof {
            assert(files@.take(f + 1).drop_last() =~= files@.take(f as int));
        }
        if prefixes.len() > 0 && !path_allowed(prefixes, path) {
            push_issue(&mut policy, cat3("touched file `", path, "` is outside allowed_write_paths"));
        }
        proof {
            assert(views(policy@) =~= scope_violations(files@.take(f + 1), prefixes@));
        }
        f = f + 1;
    }
    assert(files@.take(f as int) =~= files@);
    policy
}

/// Checks a worker's report envelope against the assignment and its packet.
pub fn validate_worker_report_envelope(
    envelope: &WorkerReportEnvelope,
    assignment_id: &str,
    packet: &AssignmentCommunicationPacket,
    surrounding_text: bool,
) -> (r: EnvelopeValidationResult)
    ensures
        views(r.structural_issues@) == structural_issues(*envelope, assignment_id@, *packet, surrounding_text),
        views(r.semantic_issues@) == semantic_issues(*envelope, *packet),
        views(r.policy_violations@) == scope_violations(envelope.touched_files@, packet.allowed_scope.allowed_write_paths@),
        r.parse_result == envelope_parse_result(*envelope, assignment_id@, *packet, surrounding_text),
        r.needs_supervisor_review == (r.parse_result != ReportParseResult::Parsed),
        (r.parse_result == ReportParseResult::Parsed) <==> (r.structural_issues@.len() == 0
            && r.semantic_issues@.len() == 0 && r.policy_violations@.len() == 0),
        r.parse_result != ReportParseResult::Invalid && r.policy_violations@.len() > 0
            ==> r.parse_result == ReportParseResult::Ambiguous && r.needs_supervisor_review,
{
    proof {
        lemma_parse_result_by_issues(*envelope, assignment_id@, *packet, surrounding_text);
    }
    let (structural, invalid) = check_structure(envelope, assignment_id, packet, surrounding_text);
    let review_issue = envelope.review_signal.level == ReviewSignalLevel::Required
        && envelope.review_signal.reasons.len() == 0;
    let mut semantic: Vec<String> = Vec::new();
    assert(views(semantic@) =~= Seq::<Seq<char>>::empty());
    if review_issue {
        push_issue(&mut semantic, owned("review_signal.level=required should include at least one reason"));
    }
    let before_criteria = semantic.len();
    check_criteria(&envelope.acceptance_results, &packet.acceptance_criteria, &mut semantic);
    let after_criteria = semantic.len();
    check_stop_conditions(&envelope.triggered_stop_condition_ids, &packet.stop_conditions, &mut semantic);
    let after_stops = semantic.len();
    let policy = check_scope(&envelope.touched_files, &packet.allowed_scope.allowed_write_paths);
    proof {
        assert(views(semantic@) =~= semantic_issues(*envelope, *packet));
    }
    let unknown_refs = after_criteria > before_criteria || after_stops > after_criteria;
    let parse_result = if invalid || unknown_refs {
        ReportParseResult::Invalid
    } else if surrounding_text || review_issue || policy.len() > 0 {
        ReportParseResult::Ambiguous
    } else {
        ReportParseResult::Parsed
    };
    EnvelopeValidationResult {
        needs_supervisor_review: parse_result != ReportParseResult::Parsed,
        parse_result,
        structural_issues: structural,
        semantic_issues: semantic,
        policy_violations: policy,
    }
}

/// An envelope parses as invalid exactly when it breaks one of the outright rules: the schema
/// version, the assignment, the packet, the task mode (its own and its payload's), a blank
/// summary, an unknown disposition or confidence, or an acceptance criterion or stop condition
/// the packet does not name. Surrounding text or a scope violation alone never makes it invalid.
pub proof fn lemma_invalid_exactly_when_broken(
    e: WorkerReportEnvelope,
    assignment_id: Seq<char>,
    p: AssignmentCommunicationPacket,
    surrounding_text: bool,
)
    ensures
        (envelope_parse_result(e, assignment_id, p, surrounding_text) == ReportParseResult::Invalid)
            <==> envelope_invalid(e, assignment_id, p),
{
}

/// One for a check that fails, none otherwise.
pub open spec fn tally(fails: bool) -> int {
    if fails { 1 } else { 0 }
}

/// Whether an acceptance result names no criterion among `items`.
pub open spec fn names_no_criterion(items: Seq<PacketItem>) -> spec_fn(AcceptanceResult) -> bool {
    |r: AcceptanceResult| !has_item(items, r.criterion_id@)
}

/// Whether a stop condition id names no condition among `items`.
pub open spec fn names_no_condition(items: Seq<PacketItem>) -> spec_fn(String) -> bool {
    |id: String| !has_item(items, id@)
}

/// Whether a touched file lies outside a non-empty list of allowed write paths.
pub open spec fn outside_scope(prefixes: Seq<String>) -> spec_fn(TouchedFile) -> bool {
    |f: TouchedFile| prefixes.len() > 0 && !under_some_prefix(prefixes, f.path@)
}

/// One message per acceptance result that names no criterion of the packet.
pub proof fn lemma_unknown_criteria_count(results: Seq<AcceptanceResult>, items: Seq<PacketItem>)
    ensures
        unknown_criteria(results, items).len() == results.filter(names_no_criterion(items)).len(),
    decreases results.len(),
{
    reveal(Seq::filter);
    if results.len() > 0 {
        lemma_unknown_criteria_count(results.drop_last(), items);
    }
}

/// One message per triggered stop condition that names no condition of the packet.
pub proof fn lemma_unknown_stop_conditions_count(ids: Seq<String>, items: Seq<PacketItem>)
    ensures
        unknown_stop_conditions(ids, items).len() == ids.filter(names_no_condition(items)).len(),
    decreases ids.len(),
{
    reveal(Seq::filter);
    if ids.len() > 0 {
        lemma_unknown_stop_conditions_count(ids.drop_last(), items);
    }
}

/// One message per touched file outside a non-empty list of allowed write paths.
pub proof fn lemma_scope_violations_count(files: Seq<TouchedFile>, prefixes: Seq<String>)
    ensures
        scope_violations(files, prefixes).len() == files.filter(outside_scope(prefixes)).len(),
    decreases files.len(),
{
    reveal(Seq::filter);
    if files.len() > 0 {
        lemma_scope_violations_count(files.drop_last(), prefixes);
    }
}

/// The validation of an envelope gives one structural issue per failing check (surrounding
/// text, schema, assignment, packet, task mode, payload mode, summary, disposition, confidence),
/// one semantic issue per unknown criterion or stop condition plus one for a required review
/// without reasons, and one policy violation per touched file outside the allowed write paths.
pub proof fn lemma_issue_counts(
    e: WorkerReportEnvelope,
    assignment_id: Seq<char>,
    p: AssignmentCommunicationPacket,
    surrounding_text: bool,
)
    ensures
        structural_issues(e, assignment_id, p, surrounding_text).len() == tally(surrounding_text)
            + tally(e.schema_version@ != WORKER_REPORT_ENVELOPE_SCHEMA_VERSION@)
            + tally(e.assignment_id@ != assignment_id)
            + tally(e.packet_id@ != p.packet_id@)
            + tally(e.task_mode != p.task_mode)
            + tally(e.mode_payload.spec_task_mode() != p.task_mode)
            + tally(is_blank(e.summary@))
            + tally(e.disposition == ReportDisposition::Unknown)
            + tally(e.confidence == ReportConfidence::Unknown),
        semantic_issues(e, p).len() == tally(review_without_reason(e))
            + e.acceptance_results@.filter(names_no_criterion(p.acceptance_criteria@)).len()
            + e.triggered_stop_condition_ids@.filter(names_no_condition(p.stop_conditions@)).len(),
        scope_violations(e.touched_files@, p.allowed_scope.allowed_write_paths@).len()
            == e.touched_files@.filter(outside_scope(p.allowed_scope.allowed_write_paths@)).len(),
{
    lemma_unknown_criteria_count(e.acceptance_results@, p.acceptance_criteria@);
    lemma_unknown_stop_conditions_count(e.triggered_stop_condition_ids@, p.stop_conditions@);
    lemma_scope_violations_count(e.touched_files@, p.allowed_scope.allowed_write_paths@);
}

/// An envelope parses cleanly exactly when its validation finds no issue of any kind; it is
/// invalid exactly when a check other than surrounding text fails or it names a criterion or
/// stop condition the packet lacks; an envelope that is not invalid but touches a file outside
/// the allowed write paths is ambiguous, never parsed.
pub proof fn lemma_parse_result_by_issues(
    e: WorkerReportEnvelope,
    assignment_id: Seq<char>,
    p: AssignmentCommunicationPacket,
    surrounding_text: bool,
)
    ensures
        ({
            let pr = envelope_parse_result(e, assignment_id, p, surrounding_text);
            let st = structural_issues(e, assignment_id, p, surrounding_text);
            let se = semantic_issues(e, p);
            let po = scope_violations(e.touched_files@, p.allowed_scope.allowed_write_paths@);
            let unknown_refs = unknown_criteria(e.acceptance_results@, p.acceptance_criteria@).len()
                + unknown_stop_conditions(e.triggered_stop_condition_ids@, p.stop_conditions@).len();
            &&& (pr == ReportParseResult::Parsed) <==> (st.len() == 0 && se.len() == 0 && po.len() == 0)
            &&& (pr == ReportParseResult::Invalid) <==> (st.len() > tally(surrounding_text) || unknown_refs > 0)
            &&& (pr != ReportParseResult::Invalid && po.len() > 0) ==> pr == ReportParseResult::Ambiguous
        }),
{
    lemma_issue_counts(e, assignment_id, p, surrounding_text);
}

} // verus!
