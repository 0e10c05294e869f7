//! The thresholds a walk is held against, and what follows when one is
//! exceeded.

use vstd::prelude::*;
use crate::error::MergeError;
use crate::scan::{
    count_files,
    count_oversized,
    deepest,
    estimated_output,
    report_of,
    total_bytes,
    RiskReport,
    ScanEntry,
};
use crate::strings::{chars_eq_ignore_ascii_case, chars_of, eq_ignore_ascii_case};

verus! {

/// More files than this is a risk.
pub const MAX_FILE_COUNT: u64 = 20_000;

/// More bytes of input than this is a risk (4 GiB).
pub const MAX_TOTAL_BYTES: u64 = 4_294_967_296;

/// A larger estimate of the output than this is a risk (1 GiB).
pub const MAX_OUTPUT_BYTES: u64 = 1_073_741_824;

/// A deeper tree than this is a risk.
pub const MAX_DEPTH: usize = 20;

/// Which thresholds a walk exceeds.
#[derive(Copy, Clone, Debug, PartialEq, Eq, Structural)]
pub struct RiskFindings {
    pub too_many_files: bool,
    pub oversized_file: bool,
    pub input_too_large: bool,
    pub output_too_large: bool,
    pub too_deep: bool,
}

/// What is to be done about a walk before it is merged.
#[derive(Copy, Clone, Debug, PartialEq, Eq, Structural)]
pub enum RiskDecision {
    /// No threshold is exceeded.
    Proceed,
    /// A threshold is exceeded; the run goes on after a warning.
    Warn(RiskFindings),
    /// A threshold is exceeded; the run goes on only if the user agrees.
    Confirm(RiskFindings),
}

impl RiskFindings {
    /// Whether any threshold is exceeded.
    pub open spec fn any(self) -> bool {
        self.too_many_files || self.oversized_file || self.input_too_large || self.output_too_large
            || self.too_deep
    }

    /// Whether any threshold is exceeded.
    pub fn exceeded(&self) -> (r: bool)
        ensures
            r == self.any(),
    {
        self.too_many_files || self.oversized_file || self.input_too_large || self.output_too_large
            || self.too_deep
    }
}

/// The thresholds that a report exceeds.
pub open spec fn findings_of(report: RiskReport) -> RiskFindings {
    RiskFindings {
        too_many_files: report.file_count > MAX_FILE_COUNT,
        oversized_file: report.oversized_file_count > 0,
        input_too_large: report.total_size_bytes > MAX_TOTAL_BYTES,
        output_too_large: report.estimated_output_bytes > MAX_OUTPUT_BYTES,
        too_deep: report.max_depth > MAX_DEPTH,
    }
}

/// What is to be done about a report: nothing if no threshold is exceeded;
/// else a warning where confirmation is switched off or nothing will be
/// written; else a question to the user.
pub open spec fn decision_of(report: RiskReport, no_confirm: bool, dry_run: bool) -> RiskDecision {
    let findings = findings_of(report);
    if !findings.any() {
        RiskDecision::Proceed
    } else if no_confirm || dry_run {
        RiskDecision::Warn(findings)
    } else {
        RiskDecision::Confirm(findings)
    }
}

/// Whether `c` is blank: a space, a tab, or the end of a line.
pub open spec fn is_blank(c: char) -> bool {
    c == ' ' || c == '\t' || c == '\n' || c == '\r'
}

/// `s` without the blanks at its end.
pub open spec fn trim_end(s: Seq<char>) -> Seq<char>
    decreases s.len(),
{
    if s.len() > 0 && is_blank(s.last()) {
        trim_end(s.drop_last())
    } else {
        s
    }
}

/// `s` without the blanks at its start.
pub open spec fn trim_start(s: Seq<char>) -> Seq<char>
    decreases s.len(),
{
    if s.len() > 0 && is_blank(s.first()) {
        trim_start(s.drop_first())
    } else {
        s
    }
}

/// Whether an answer agrees: apart from blanks around it, it is `y` or `yes`
/// in any case of letters. An empty answer, as at the end of input, does not.
pub open spec fn affirmative(answer: Seq<char>) -> bool {
    let word = trim_start(trim_end(answer));
    eq_ignore_ascii_case(word, seq!['y']) || eq_ignore_ascii_case(word, seq!['y', 'e', 's'])
}

/// Holds a report against the thresholds.
pub fn evaluate(report: &RiskReport) -> (findings: RiskFindings)
    ensures
        findings == findings_of(*report),
{
    RiskFindings {
        too_many_files: report.file_count > MAX_FILE_COUNT,
        oversized_file: report.oversized_file_count > 0,
        input_too_large: report.total_size_bytes > MAX_TOTAL_BYTES,
        output_too_large: report.estimated_output_bytes > MAX_OUTPUT_BYTES,
        too_deep: report.max_depth > MAX_DEPTH,
    }
}

/// Decides what is to be done about a report.
pub fn assess(report: &RiskReport, no_confirm: bool, dry_run: bool) -> (decision: RiskDecision)
    ensures
        decision == decision_of(*report, no_confirm, dry_run),
{
    let findings: RiskFindings = evaluate(report);
    if !findings.exceeded() {
        RiskDecision::Proceed
    } else if no_confirm || dry_run {
        RiskDecision::Warn(findings)
    } else {
        RiskDecision::Confirm(findings)
    }
}

fn blank(c: char) -> (r: bool)
    ensures
        r == is_blank(c),
{
    c == ' ' || c == '\t' || c == '\n' || c == '\r'
}

/// Whether an answer agrees.
pub fn is_affirmative(answer: &str) -> (r: bool)
    ensures
        r == affirmative(answer@),
{
    let chars: Vec<char> = chars_of(answer);
    let mut end: usize = chars.len();
    assert(chars@.take(end as int) =~= chars@);
    while end > 0 && blank(chars[end - 1])
        invariant
            end <= chars.len(),
            trim_end(chars@) == trim_end(chars@.take(end as int)),
        decreases end,
    {
        assert(chars@.take(end as int).drop_last() =~= chars@.take(end - 1));
        end -= 1;
    }
    let mut start: usize = 0;
    while start < end && blank(chars[start])
        invariant
            start <= end <= chars.len(),
            trim_start(trim_end(chars@)) == trim_start(chars@.subrange(start as int, end as int)),
        decreases end - start,
    {
        assert(chars@.subrange(start as int, end as int).drop_first() =~= chars@.subrange(
            start + 1,
            end as int,
        ));
        start += 1;
    }
    let mut word: Vec<char> = Vec::new();
    let mut i: usize = start;
    while i < end
        invariant
            start <= i <= end <= chars.len(),
            word@ == chars@.subrange(start as int, i as int),
        decreases end - i,
    {
        word.push(chars[i]);
        i += 1;
    }
    let mut short: Vec<char> = Vec::new();
    short.push('y');
    let mut long: Vec<char> = Vec::new();
    long.push('y');
    long.push('e');
    long.push('s');
    chars_eq_ignore_ascii_case(word.as_slice(), short.as_slice()) || chars_eq_ignore_ascii_case(
        word.as_slice(),
        long.as_slice(),
    )
}

/// Settles a decision with the answer of the user. Only a decision to ask
/// looks at the answer, and it fails with `AbortedByUser` unless the answer
/// agrees.
pub fn confirm(decision: RiskDecision, answer: &str) -> (r: Result<(), MergeError>)
    ensures
        r is Ok <==> (decision is Confirm ==> affirmative(answer@)),
        r is Err ==> r == Err::<(), MergeError>(MergeError::AbortedByUser),
{
    match decision {
        RiskDecision::Confirm(_) => {
            if is_affirmative(answer) {
                Ok(())
            } else {
                Err(MergeError::AbortedByUser)
            }
        },
        _ => Ok(()),
    }
}

/// An empty answer, as at the end of the input, does not agree.
pub proof fn lemma_empty_answer_declines()
    ensures
        !affirmative(Seq::<char>::empty()),
{
}

/// The thresholds are far below the point at which the sums of a report stop
/// growing, so a report exceeds exactly the thresholds that the walk itself
/// exceeds.
pub proof fn lemma_findings_are_exact(entries: Seq<ScanEntry>)
    ensures
        findings_of(report_of(entries)) == (RiskFindings {
            too_many_files: count_files(entries) > MAX_FILE_COUNT,
            oversized_file: count_oversized(entries) > 0,
            input_too_large: total_bytes(entries) > MAX_TOTAL_BYTES,
            output_too_large: estimated_output(entries) > MAX_OUTPUT_BYTES,
            too_deep: deepest(entries) > MAX_DEPTH,
        }),
{
}

} // verus!
