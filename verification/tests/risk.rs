use treemerge::error::MergeError;
use treemerge::risk::{
    assess, confirm, evaluate, is_affirmative, RiskDecision, RiskFindings, MAX_DEPTH,
    MAX_FILE_COUNT, MAX_OUTPUT_BYTES, MAX_TOTAL_BYTES,
};
use treemerge::scan::{RiskReport, ScanEntry, HEADER_OVERHEAD_BYTES, OVERSIZED_FILE_BYTES};

fn file(path: &str, size: u64, depth: usize) -> ScanEntry {
    ScanEntry { path: path.to_string(), is_file: true, size, depth }
}

fn dir(path: &str, depth: usize) -> ScanEntry {
    ScanEntry { path: path.to_string(), is_file: false, size: 4096, depth }
}

fn calm() -> RiskFindings {
    RiskFindings {
        too_many_files: false,
        oversized_file: false,
        input_too_large: false,
        output_too_large: false,
        too_deep: false,
    }
}

#[test]
fn thresholds_have_their_values() {
    assert_eq!(MAX_FILE_COUNT, 20_000);
    assert_eq!(OVERSIZED_FILE_BYTES, 200 * 1024 * 1024);
    assert_eq!(MAX_TOTAL_BYTES, 4 * 1024 * 1024 * 1024);
    assert_eq!(MAX_OUTPUT_BYTES, 1024 * 1024 * 1024);
    assert_eq!(MAX_DEPTH, 20);
}

#[test]
fn report_sums_files_and_ignores_directory_sizes() {
    let entries = vec![dir("", 0), file("a.txt", 10, 1), dir("d", 1), file("d/b.txt", 32, 2)];
    let report = RiskReport::from_entries(&entries);
    assert_eq!(report.file_count, 2);
    assert_eq!(report.total_size_bytes, 42);
    assert_eq!(report.max_depth, 2);
    assert_eq!(report.oversized_file_count, 0);
    assert_eq!(report.estimated_output_bytes, 42 + 2 * HEADER_OVERHEAD_BYTES);
    assert_eq!(report.estimated_output_bytes, 170);
}

#[test]
fn report_of_nothing_is_empty() {
    let report = RiskReport::from_entries(&Vec::new());
    assert_eq!(report, RiskReport::empty());
    assert_eq!(report.file_count, 0);
    assert_eq!(report.estimated_output_bytes, 0);
}

#[test]
fn directory_depth_counts() {
    let report = RiskReport::from_entries(&vec![dir("a/b/c", 3), file("x", 1, 1)]);
    assert_eq!(report.max_depth, 3);
}

#[test]
fn oversized_files_are_counted_from_the_threshold_on() {
    let entries = vec![
        file("a", OVERSIZED_FILE_BYTES - 1, 1),
        file("b", OVERSIZED_FILE_BYTES, 1),
        file("c", OVERSIZED_FILE_BYTES + 1, 1),
        dir("d", 1),
    ];
    assert_eq!(RiskReport::from_entries(&entries).oversized_file_count, 2);
}

#[test]
fn merged_reports_equal_the_report_of_the_whole() {
    let first = vec![dir("", 0), file("a", 5, 1), file("b", OVERSIZED_FILE_BYTES, 4)];
    let second = vec![file("c", 7, 2), dir("d", 9)];
    let mut all = first.clone();
    all.extend(second.clone());
    let joined = RiskReport::from_entries(&first).merge(&RiskReport::from_entries(&second));
    assert_eq!(joined, RiskReport::from_entries(&all));
    assert_eq!(joined.max_depth, 9);
    assert_eq!(joined.file_count, 3);
}

#[test]
fn record_takes_one_entry_in() {
    let mut report = RiskReport::empty();
    report.record(&file("a", 100, 3));
    assert_eq!(report.file_count, 1);
    assert_eq!(report.total_size_bytes, 100);
    assert_eq!(report.max_depth, 3);
    assert_eq!(report.estimated_output_bytes, 164);
    report.record(&dir("d", 5));
    assert_eq!(report.file_count, 1);
    assert_eq!(report.total_size_bytes, 100);
    assert_eq!(report.max_depth, 5);
}

#[test]
fn sums_stop_at_the_largest_value() {
    let entries = vec![file("a", u64::MAX, 1), file("b", u64::MAX, 1)];
    let report = RiskReport::from_entries(&entries);
    assert_eq!(report.total_size_bytes, u64::MAX);
    assert_eq!(report.estimated_output_bytes, u64::MAX);
    assert_eq!(report.file_count, 2);
}

#[test]
fn file_count_threshold_is_strict() {
    let mut report = RiskReport::empty();
    report.file_count = 20_000;
    assert_eq!(evaluate(&report), calm());
    report.file_count = 20_001;
    assert!(evaluate(&report).too_many_files);
}

#[test]
fn total_size_threshold_is_strict() {
    let mut report = RiskReport::empty();
    report.total_size_bytes = MAX_TOTAL_BYTES;
    assert_eq!(evaluate(&report), calm());
    report.total_size_bytes = MAX_TOTAL_BYTES + 1;
    let mut expected = calm();
    expected.input_too_large = true;
    assert_eq!(evaluate(&report), expected);
}

#[test]
fn output_estimate_threshold_is_strict() {
    let mut report = RiskReport::empty();
    report.estimated_output_bytes = MAX_OUTPUT_BYTES;
    assert_eq!(evaluate(&report), calm());
    report.estimated_output_bytes = MAX_OUTPUT_BYTES + 1;
    assert!(evaluate(&report).output_too_large);
}

#[test]
fn depth_threshold_is_strict() {
    let mut report = RiskReport::empty();
    report.max_depth = 20;
    assert_eq!(evaluate(&report), calm());
    report.max_depth = 21;
    assert!(evaluate(&report).too_deep);
}

#[test]
fn one_oversized_file_is_a_finding() {
    let report = RiskReport::from_entries(&vec![file("big", OVERSIZED_FILE_BYTES, 1)]);
    let mut expected = calm();
    expected.oversized_file = true;
    assert_eq!(evaluate(&report), expected);
    assert!(expected.exceeded());
    assert!(!calm().exceeded());
}

#[test]
fn assess_proceeds_without_findings() {
    let report = RiskReport::from_entries(&vec![file("a", 1, 1)]);
    assert_eq!(assess(&report, false, false), RiskDecision::Proceed);
    assert_eq!(assess(&report, true, true), RiskDecision::Proceed);
}

#[test]
fn assess_warns_or_asks_when_a_threshold_is_exceeded() {
    let mut report = RiskReport::empty();
    report.max_depth = 21;
    let mut findings = calm();
    findings.too_deep = true;
    assert_eq!(assess(&report, false, false), RiskDecision::Confirm(findings));
    assert_eq!(assess(&report, true, false), RiskDecision::Warn(findings));
    assert_eq!(assess(&report, false, true), RiskDecision::Warn(findings));
    assert_eq!(assess(&report, true, true), RiskDecision::Warn(findings));
}

#[test]
fn affirmative_answers() {
    assert!(is_affirmative("y"));
    assert!(is_affirmative("Y"));
    assert!(is_affirmative("yes"));
    assert!(is_affirmative("YES"));
    assert!(is_affirmative("yEs\n"));
    assert!(is_affirmative("  y \r\n"));
    assert!(is_affirmative("\tyes\t"));
}

#[test]
fn other_answers_do_not_agree() {
    assert!(!is_affirmative(""));
    assert!(!is_affirmative("\n"));
    assert!(!is_affirmative("n"));
    assert!(!is_affirmative("no"));
    assert!(!is_affirmative("ye"));
    assert!(!is_affirmative("yess"));
    assert!(!is_affirmative("y es"));
    assert!(!is_affirmative("yes please"));
    assert!(!is_affirmative("\u{a0}yes"));
}

#[test]
fn confirm_only_asks_when_told_to() {
    let mut findings = calm();
    findings.too_many_files = true;
    assert_eq!(confirm(RiskDecision::Proceed, ""), Ok(()));
    assert_eq!(confirm(RiskDecision::Warn(findings), "no"), Ok(()));
    assert_eq!(confirm(RiskDecision::Confirm(findings), "yes\n"), Ok(()));
    assert_eq!(confirm(RiskDecision::Confirm(findings), "no"), Err(MergeError::AbortedByUser));
    assert_eq!(confirm(RiskDecision::Confirm(findings), ""), Err(MergeError::AbortedByUser));
}
