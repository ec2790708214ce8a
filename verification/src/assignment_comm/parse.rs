use vstd::prelude::*;

use super::policy::{
    envelope_parse_result, scope_violations, semantic_issues, structural_issues,
    validate_worker_report_envelope, views,
};
use super::{
    AssignmentCommunicationPacket, EnvelopeExtraction, ReportConfidence, ReportDisposition,
    ReportParseResult, WorkerReportEnvelope, WorkerReportModePayload, WorkerReportValidation,
    REPORT_MARKER_BEGIN, REPORT_MARKER_END,
};
use crate::model::{copy_strings, TurnLifecycleState};
use crate::text::{
    cat2, contains, find_first, is_blank, occurs_at, owned, split_once, str_contains, str_find, str_is_blank, str_trim, trimmed,
};

verus! {

/// What `extract_envelope` finds in a worker's output: the trimmed text between the markers when
/// each marker occurs exactly once, begin before end, and whether non-blank text surrounds it.
pub open spec fn extraction_of(raw: Seq<char>) -> (Option<Seq<char>>, bool) {
    match split_once(raw, REPORT_MARKER_BEGIN@) {
        None => (None, false),
        Some((prefix, after_begin)) => match split_once(after_begin, REPORT_MARKER_END@) {
            None => (None, false),
            Some((json, suffix)) => if contains(after_begin, REPORT_MARKER_BEGIN@) || contains(
                suffix,
                REPORT_MARKER_END@,
            ) {
                (None, false)
            } else {
                (Some(trimmed(json)), !is_blank(prefix) || !is_blank(suffix))
            },
        },
    }
}

fn split_once_str<'a>(s: &'a str, pat: &str) -> (r: Option<(&'a str, &'a str)>)
    ensures
        split_once(s@, pat@) == match r {
            Some((a, b)) => Some((a@, b@)),
            None => None,
        },
{
    proof { reveal(split_once); }
    let n = s.unicode_len();
    match str_find(s, pat) {
        None => None,
        Some(i) => {
            let plen = pat.unicode_len();
            let before = s.substring_char(0, i);
            let after = s.substring_char(i + plen, n);
            assert(before@ =~= s@.take(i as int));
            assert(after@ =~= s@.skip(i + plen));
            Some((before, after))
        },
    }
}

/// Finds the one report envelope in a worker's output.
pub fn extract_envelope(raw_output: &str) -> (r: EnvelopeExtraction)
    ensures
        extraction_of(raw_output@) == (
            match r.json_payload {
                Some(p) => Some(p@),
                None => None,
            },
            r.surrounding_text,
        ),
{
    let (prefix, after_begin) = match split_once_str(raw_output, REPORT_MARKER_BEGIN) {
        Some(parts) => parts,
        None => {
            return EnvelopeExtraction { json_payload: None, surrounding_text: false };
        },
    };
    let (json, suffix) = match split_once_str(after_begin, REPORT_MARKER_END) {
        Some(parts) => parts,
        None => {
            return EnvelopeExtraction { json_payload: None, surrounding_text: false };
        },
    };
    if str_contains(after_begin, REPORT_MARKER_BEGIN) || str_contains(suffix, REPORT_MARKER_END) {
        return EnvelopeExtraction { json_payload: None, surrounding_text: false };
    }
    let payload = owned(str_trim(json));
    EnvelopeExtraction {
        json_payload: Some(payload),
        surrounding_text: !str_is_blank(prefix) || !str_is_blank(suffix),
    }
}

/// A worker's report as the supervisor records it.
#[derive(Debug)]
pub struct ParsedWorkerReport {
    pub envelope: Option<WorkerReportEnvelope>,
    pub validation: WorkerReportValidation,
    pub disposition: ReportDisposition,
    pub summary: String,
    pub findings: Vec<String>,
    pub blockers: Vec<String>,
    pub questions: Vec<String>,
    pub recommended_next_actions: Vec<String>,
    pub confidence: ReportConfidence,
}

/// The summary of a report whose structured part could not be trusted.
pub open spec fn retained_summary() -> Seq<char> {
    "Worker output retained for supervisor review because the structured report was invalid or incomplete."@
}

/// The report fields carry nothing of the worker's own: unknown disposition and confidence, the
/// retained-output summary and no lists.
pub open spec fn report_withheld(r: ParsedWorkerReport) -> bool {
    &&& r.disposition == ReportDisposition::Unknown
    &&& r.summary@ == retained_summary()
    &&& r.findings@.len() == 0
    &&& r.blockers@.len() == 0
    &&& r.questions@.len() == 0
    &&& r.recommended_next_actions@.len() == 0
    &&& r.confidence == ReportConfidence::Unknown
}

/// The report of an output without a usable envelope, with one structural issue.
pub open spec fn report_fallback(r: ParsedWorkerReport, issue: Seq<char>, validated_at: i64) -> bool {
    &&& r.envelope is None
    &&& r.validation.validated_at == validated_at
    &&& r.validation.parse_result == ReportParseResult::Invalid
    &&& views(r.validation.structural_issues@) == seq![issue]
    &&& r.validation.semantic_issues@.len() == 0
    &&& r.validation.policy_violations@.len() == 0
    &&& r.validation.needs_supervisor_review
    &&& report_withheld(r)
}

/// The findings an implement-mode envelope reports: its semantic changes.
pub open spec fn envelope_findings(e: WorkerReportEnvelope) -> Seq<String> {
    match e.mode_payload {
        WorkerReportModePayload::Implement(p) => p.semantic_changes@,
    }
}

/// The report of a decoded envelope: the validation of it, and the worker's own fields unless the
/// envelope is invalid.
pub open spec fn report_from_envelope(
    r: ParsedWorkerReport,
    e: WorkerReportEnvelope,
    assignment_id: Seq<char>,
    p: AssignmentCommunicationPacket,
    surrounding_text: bool,
    validated_at: i64,
) -> bool {
    let pr = envelope_parse_result(e, assignment_id, p, surrounding_text);
    &&& r.envelope == Some(e)
    &&& r.validation.validated_at == validated_at
    &&& r.validation.parse_result == pr
    &&& views(r.validation.structural_issues@) == structural_issues(e, assignment_id, p, surrounding_text)
    &&& views(r.validation.semantic_issues@) == semantic_issues(e, p)
    &&& views(r.validation.policy_violations@) == scope_violations(e.touched_files@, p.allowed_scope.allowed_write_paths@)
    &&& r.validation.needs_supervisor_review == (pr != ReportParseResult::Parsed)
    &&& if pr == ReportParseResult::Invalid {
        report_withheld(r)
    } else {
        &&& r.disposition == e.disposition
        &&& r.summary == e.summary
        &&& r.findings@ == envelope_findings(e)
        &&& r.blockers@ == e.blockers@
        &&& r.questions@ == e.questions@
        &&& r.recommended_next_actions@ == e.recommended_next_actions@
        &&& r.confidence == e.confidence
    }
}

/// What parsing a worker's output gives, by what decoding its envelope gave.
pub open spec fn parse_outcome(
    r: ParsedWorkerReport,
    surrounding_text: bool,
    decoded: Option<Result<WorkerReportEnvelope, String>>,
    assignment_id: Seq<char>,
    packet: AssignmentCommunicationPacket,
    validated_at: i64,
) -> bool {
    match decoded {
        None => report_fallback(r, "worker output did not contain exactly one Orcas report envelope"@, validated_at),
        Some(Err(m)) => report_fallback(r, "worker report envelope JSON could not be decoded: "@ + m@, validated_at),
        Some(Ok(e)) => report_from_envelope(r, e, assignment_id, packet, surrounding_text, validated_at),
    }
}

/// The report of a turn, given how the turn ended and the report of its output.
pub open spec fn turn_outcome(r: ParsedWorkerReport, p: ParsedWorkerReport, lifecycle: TurnLifecycleState, raw_output: Seq<char>) -> bool {
    match lifecycle {
        TurnLifecycleState::Interrupted => report_downgraded(
            r,
            p,
            ReportDisposition::Interrupted,
            if is_blank(raw_output) {
                "Execution was interrupted before a valid Orcas report envelope was produced."@
            } else {
                "Execution was interrupted. Raw output was retained for supervisor review."@
            },
            "runtime interrupted the turn before Orcas could trust the report as authoritative"@,
        ),
        TurnLifecycleState::Lost | TurnLifecycleState::Unknown => report_downgraded(
            r,
            p,
            ReportDisposition::Failed,
            if is_blank(raw_output) {
                "Execution lost runtime continuity before a valid Orcas report envelope was produced."@
            } else {
                "Execution lost runtime continuity. Raw output was retained for supervisor review."@
            },
            "runtime continuity was lost before Orcas could trust the report as authoritative"@,
        ),
        _ => r == p,
    }
}

fn fallback(issue: String, validated_at: i64) -> (r: ParsedWorkerReport)
    ensures
        report_fallback(r, issue@, validated_at),
{
    let mut structural: Vec<String> = Vec::new();
    structural.push(issue);
    assert(views(structural@) =~= seq![issue@]);
    ParsedWorkerReport {
        envelope: None,
        validation: WorkerReportValidation {
            validated_at,
            parse_result: ReportParseResult::Invalid,
            structural_issues: structural,
            semantic_issues: Vec::new(),
            policy_violations: Vec::new(),
            needs_supervisor_review: true,
        },
        disposition: ReportDisposition::Unknown,
        summary: owned("Worker output retained for supervisor review because the structured report was invalid or incomplete."),
        findings: Vec::new(),
        blockers: Vec::new(),
        questions: Vec::new(),
        recommended_next_actions: Vec::new(),
        confidence: ReportConfidence::Unknown,
    }
}

/// Turns a worker's output into a report. `decoded` is what decoding the extracted envelope text
/// as JSON gave (the decoder's message on failure); it is present exactly when an envelope was
/// extracted.
pub fn parse_worker_report(
    extraction: &EnvelopeExtraction,
    decoded: Option<Result<WorkerReportEnvelope, String>>,
    assignment_id: &str,
    packet: &AssignmentCommunicationPacket,
    validated_at: i64,
) -> (r: ParsedWorkerReport)
    requires
        extraction.json_payload is Some <==> decoded is Some,
    ensures
        parse_outcome(r, extraction.surrounding_text, decoded, assignment_id@, *packet, validated_at),
{
    let envelope = match decoded {
        None => {
            return fallback(owned("worker output did not contain exactly one Orcas report envelope"), validated_at);
        },
        Some(Err(m)) => {
            return fallback(cat2("worker report envelope JSON could not be decoded: ", m.as_str()), validated_at);
        },
        Some(Ok(e)) => e,
    };
    let v = validate_worker_report_envelope(&envelope, assignment_id, packet, extraction.surrounding_text);
    let validation = WorkerReportValidation {
        validated_at,
        parse_result: v.parse_result,
        structural_issues: v.structural_issues,
        semantic_issues: v.semantic_issues,
        policy_violations: v.policy_violations,
        needs_supervisor_review: v.needs_supervisor_review,
    };
    if validation.parse_result == ReportParseResult::Invalid {
        return ParsedWorkerReport {
            envelope: Some(envelope),
            validation,
            disposition: ReportDisposition::Unknown,
            summary: owned("Worker output retained for supervisor review because the structured report was invalid or incomplete."),
            findings: Vec::new(),
            blockers: Vec::new(),
            questions: Vec::new(),
            recommended_next_actions: Vec::new(),
            confidence: ReportConfidence::Unknown,
        };
    }
    let findings = match &envelope.mode_payload {
        WorkerReportModePayload::Implement(payload) => copy_strings(&payload.semantic_changes),
    };
    ParsedWorkerReport {
        disposition: envelope.disposition,
        summary: envelope.summary.clone(),
        findings,
        blockers: copy_strings(&envelope.blockers),
        questions: copy_strings(&envelope.questions),
        recommended_next_actions: copy_strings(&envelope.recommended_next_actions),
        confidence: envelope.confidence,
        envelope: Some(envelope),
        validation,
    }
}

/// The report of a turn that did not end cleanly: the worker's fields are set aside, the parse
/// result is no better than ambiguous, and review is required with a reason.
pub open spec fn report_downgraded(
    r: ParsedWorkerReport,
    p: ParsedWorkerReport,
    disposition: ReportDisposition,
    summary: Seq<char>,
    issue: Seq<char>,
) -> bool {
    &&& r.envelope == p.envelope
    &&& r.disposition == disposition
    &&& r.summary@ == summary
    &&& r.findings@.len() == 0
    &&& r.blockers@.len() == 0
    &&& r.questions@.len() == 0
    &&& r.recommended_next_actions@.len() == 0
    &&& r.confidence == ReportConfidence::Unknown
    &&& r.validation.validated_at == p.validation.validated_at
    &&& r.validation.parse_result == (if p.validation.parse_result == ReportParseResult::Parsed {
        ReportParseResult::Ambiguous
    } else {
        p.validation.parse_result
    })
    &&& r.validation.structural_issues == p.validation.structural_issues
    &&& views(r.validation.semantic_issues@) == views(p.validation.semantic_issues@).push(issue)
    &&& r.validation.policy_violations == p.validation.policy_violations
    &&& r.validation.needs_supervisor_review
}

/// The report of a turn, given how the turn ended: an interrupted turn's report becomes
/// `Interrupted` and a lost one's `Failed`, both set aside for supervisor review.
pub fn downgrade_for_lifecycle(raw_output: &str, lifecycle: TurnLifecycleState, parsed: ParsedWorkerReport) -> (r: ParsedWorkerReport)
    ensures
        turn_outcome(r, parsed, lifecycle, raw_output@),
{
    let interrupted = match lifecycle {
        TurnLifecycleState::Interrupted => true,
        TurnLifecycleState::Lost | TurnLifecycleState::Unknown => false,
        _ => {
            return parsed;
        },
    };
    let blank = str_is_blank(raw_output);
    let mut parsed = parsed;
    if interrupted {
        parsed.disposition = ReportDisposition::Interrupted;
        parsed.summary = if blank {
            owned("Execution was interrupted before a valid Orcas report envelope was produced.")
        } else {
            owned("Execution was interrupted. Raw output was retained for supervisor review.")
        };
    } else {
        parsed.disposition = ReportDisposition::Failed;
        parsed.summary = if blank {
            owned("Execution lost runtime continuity before a valid Orcas report envelope was produced.")
        } else {
            owned("Execution lost runtime continuity. Raw output was retained for supervisor review.")
        };
    }
    parsed.findings = Vec::new();
    parsed.blockers = Vec::new();
    parsed.questions = Vec::new();
    parsed.recommended_next_actions = Vec::new();
    parsed.confidence = ReportConfidence::Unknown;
    if parsed.validation.parse_result == ReportParseResult::Parsed {
        parsed.validation.parse_result = ReportParseResult::Ambiguous;
    }
    parsed.validation.needs_supervisor_review = true;
    let ghost before = parsed.validation.semantic_issues@;
    let issue = if interrupted {
        owned("runtime interrupted the turn before Orcas could trust the report as authoritative")
    } else {
        owned("runtime continuity was lost before Orcas could trust the report as authoritative")
    };
    parsed.validation.semantic_issues.push(issue);
    assert(views(parsed.validation.semantic_issues@) =~= views(before).push(issue@));
    parsed
}

/// Turns a turn's output into a report, then sets it aside when the turn was interrupted or lost.
pub fn parse_worker_report_for_turn(
    raw_output: &str,
    lifecycle: TurnLifecycleState,
    extraction: &EnvelopeExtraction,
    decoded: Option<Result<WorkerReportEnvelope, String>>,
    assignment_id: &str,
    packet: &AssignmentCommunicationPacket,
    validated_at: i64,
) -> (r: ParsedWorkerReport)
    requires
        extraction.json_payload is Some <==> decoded is Some,
    ensures
        exists|p: ParsedWorkerReport|
            #[trigger] parse_outcome(p, extraction.surrounding_text, decoded, assignment_id@, *packet, validated_at)
                && turn_outcome(r, p, lifecycle, raw_output@),
{
    let parsed = parse_worker_report(extraction, decoded, assignment_id, packet, validated_at);
    downgrade_for_lifecycle(raw_output, lifecycle, parsed)
}

/// A report that parses as invalid is always held for the supervisor's review and carries nothing
/// of the worker's own fields; an output without exactly one decodable envelope always parses as
/// invalid, with no envelope kept.
pub proof fn lemma_invalid_report_withheld(
    r: ParsedWorkerReport,
    surrounding_text: bool,
    decoded: Option<Result<WorkerReportEnvelope, String>>,
    assignment_id: Seq<char>,
    packet: AssignmentCommunicationPacket,
    validated_at: i64,
)
    requires
        parse_outcome(r, surrounding_text, decoded, assignment_id, packet, validated_at),
    ensures
        r.validation.parse_result == ReportParseResult::Invalid ==> r.validation.needs_supervisor_review && report_withheld(r),
        !(decoded matches Some(Ok(_))) ==> r.validation.parse_result == ReportParseResult::Invalid && r.envelope is None,
{
}

/// An occurrence in a suffix of `s` is an occurrence in `s`, shifted by where the suffix starts.
proof fn lemma_occurs_in_skip(s: Seq<char>, pat: Seq<char>, k: int, j: int)
    requires
        0 <= k <= s.len(),
        occurs_at(s.skip(k), pat, j),
    ensures
        occurs_at(s, pat, j + k),
{
    assert(s.skip(k).subrange(j, j + pat.len()) =~= s.subrange(j + k, j + k + pat.len()));
}

/// The first occurrence of a pattern that occurs only at `i`, and does occur there, is `i`.
proof fn lemma_find_only(s: Seq<char>, pat: Seq<char>, i: int)
    requires
        occurs_at(s, pat, i),
        forall|j: int| #[trigger] occurs_at(s, pat, j) ==> j == i,
    ensures
        find_first(s, pat) == Some(i),
{
    let c = choose|j: int| #[trigger] occurs_at(s, pat, j) && forall|k: int| 0 <= k < j ==> !occurs_at(s, pat, k);
    assert(occurs_at(s, pat, i) && forall|k: int| 0 <= k < i ==> !occurs_at(s, pat, k));
}

/// The output `p`, begin marker, `s`, end marker, `q`, in which each marker occurs only where it
/// is written, yields the trimmed text `s`, with surrounding text exactly when `p` or `q` is not
/// blank.
pub proof fn lemma_single_envelope_extracted(p: Seq<char>, s: Seq<char>, q: Seq<char>)
    requires
        forall|i: int| #[trigger] occurs_at(p + REPORT_MARKER_BEGIN@ + s + REPORT_MARKER_END@ + q, REPORT_MARKER_BEGIN@, i)
            ==> i == p.len(),
        forall|i: int| #[trigger] occurs_at(p + REPORT_MARKER_BEGIN@ + s + REPORT_MARKER_END@ + q, REPORT_MARKER_END@, i)
            ==> i == p.len() + REPORT_MARKER_BEGIN@.len() + s.len(),
    ensures
        extraction_of(p + REPORT_MARKER_BEGIN@ + s + REPORT_MARKER_END@ + q) == (Some(trimmed(s)), !is_blank(p) || !is_blank(q)),
{
    reveal(split_once);
    reveal(contains);
    let b = REPORT_MARKER_BEGIN@;
    let e = REPORT_MARKER_END@;
    let w = p + b + s + e + q;
    let ob = p.len() as int;
    let after = ob + b.len();
    let oe = after + s.len();
    assert(w.subrange(ob, ob + b.len()) =~= b);
    assert(occurs_at(w, b, ob));
    lemma_find_only(w, b, ob);
    assert(w.take(ob) =~= p);
    let rest = w.skip(after);
    assert(rest =~= s + e + q);
    assert(rest.subrange(s.len() as int, (s.len() + e.len()) as int) =~= e);
    assert forall|j: int| #[trigger] occurs_at(rest, e, j) implies j == s.len() by {
        lemma_occurs_in_skip(w, e, after, j);
    }
    lemma_find_only(rest, e, s.len() as int);
    assert(rest.take(s.len() as int) =~= s);
    assert(rest.skip((s.len() + e.len()) as int) =~= q);
    assert(!contains(rest, b)) by {
        if contains(rest, b) {
            let j = choose|j: int| #[trigger] occurs_at(rest, b, j);
            lemma_occurs_in_skip(w, b, after, j);
            reveal_strlit("ORCAS_REPORT_BEGIN");
        }
    }
    assert(!contains(q, e)) by {
        if contains(q, e) {
            let j = choose|j: int| #[trigger] occurs_at(q, e, j);
            let k = oe + e.len();
            assert(w.skip(k) =~= q);
            lemma_occurs_in_skip(w, e, k, j);
            reveal_strlit("ORCAS_REPORT_END");
        }
    }
}

/// How a turn's end bears on its report: an interrupted turn's report is `Interrupted`, a lost
/// or unknown one's `Failed`; either way the worker's own fields are set aside, review is
/// required, a clean parse becomes ambiguous, an invalid one stays invalid, and one issue saying
/// why is added. A turn that completed or failed keeps the report of its output as it is.
pub proof fn lemma_turn_outcome(r: ParsedWorkerReport, p: ParsedWorkerReport, lifecycle: TurnLifecycleState, raw_output: Seq<char>)
    requires
        turn_outcome(r, p, lifecycle, raw_output),
    ensures
        lifecycle == TurnLifecycleState::Interrupted ==> r.disposition == ReportDisposition::Interrupted,
        (lifecycle == TurnLifecycleState::Lost || lifecycle == TurnLifecycleState::Unknown) ==> r.disposition == ReportDisposition::Failed,
        (lifecycle == TurnLifecycleState::Interrupted || lifecycle == TurnLifecycleState::Lost || lifecycle == TurnLifecycleState::Unknown) ==> {
            &&& r.validation.needs_supervisor_review
            &&& r.validation.parse_result != ReportParseResult::Parsed
            &&& (p.validation.parse_result == ReportParseResult::Invalid ==> r.validation.parse_result == ReportParseResult::Invalid)
            &&& r.findings@.len() == 0 && r.blockers@.len() == 0 && r.questions@.len() == 0
            &&& r.recommended_next_actions@.len() == 0
            &&& r.confidence == ReportConfidence::Unknown
            &&& r.validation.semantic_issues@.len() == p.validation.semantic_issues@.len() + 1
            &&& r.envelope == p.envelope
        },
        (lifecycle == TurnLifecycleState::Completed || lifecycle == TurnLifecycleState::Failed || lifecycle == TurnLifecycleState::Active) ==> r == p,
{
    if lifecycle == TurnLifecycleState::Interrupted || lifecycle == TurnLifecycleState::Lost || lifecycle == TurnLifecycleState::Unknown {
        assert(views(r.validation.semantic_issues@).len() == r.validation.semantic_issues@.len());
        assert(views(p.validation.semantic_issues@).len() == p.validation.semantic_issues@.len());
    }
}

} // verus!
