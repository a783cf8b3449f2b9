use git_remote_util::report::export_failure_report;
use git_remote_util::report::failure_line;
use git_remote_util::report::import_stats_message;
use git_remote_util::report::ExportFailureKind;
use git_remote_util::report::RefExportFailure;

const HINT: &str = "Hint: Git doesn't allow a branch name that looks like a parent directory of\n\
                    another (e.g. `foo` and `foo/bar`). Try to rename the branches that failed to\n\
                    export or their \"parent\" branches.";

fn failure(name: &str, kind: ExportFailureKind, chain: &[&str]) -> RefExportFailure {
    RefExportFailure {
        name: String::from(name),
        kind,
        chain: chain.iter().map(|m| String::from(*m)).collect(),
    }
}

#[test]
fn zero_abandoned_commits_produce_no_output() {
    assert_eq!(import_stats_message(0), None);
}

#[test]
fn abandoned_commit_count_is_named() {
    assert_eq!(
        import_stats_message(3),
        Some(String::from("Abandoned 3 commits that are no longer reachable."))
    );
    assert_eq!(
        import_stats_message(12),
        Some(String::from("Abandoned 12 commits that are no longer reachable."))
    );
}

#[test]
fn empty_failure_list_produces_no_output() {
    let report = export_failure_report(&Vec::new());
    assert_eq!(report.header, None);
    assert!(report.lines.is_empty());
    assert_eq!(report.hint, None);
}

#[test]
fn failed_to_set_produces_the_fixed_hint_verbatim() {
    let failures = vec![failure(
        "main",
        ExportFailureKind::FailedToSet,
        &["Failed to set the ref", "permission denied"],
    )];
    let report = export_failure_report(&failures);
    assert_eq!(report.header, Some(String::from("Failed to export some branches:")));
    assert_eq!(report.lines, vec![String::from("  main: Failed to set the ref: permission denied")]);
    assert_eq!(report.hint, Some(String::from(HINT)));
}

#[test]
fn other_failure_reasons_omit_the_hint() {
    let failures = vec![failure("main", ExportFailureKind::Other, &["Modified ref had been deleted"])];
    let report = export_failure_report(&failures);
    assert_eq!(report.header, Some(String::from("Failed to export some branches:")));
    assert_eq!(report.hint, None);
}

#[test]
fn failures_are_reported_in_the_order_supplied() {
    let failures = vec![
        failure("b", ExportFailureKind::Other, &["x"]),
        failure("a", ExportFailureKind::FailedToSet, &["y"]),
    ];
    let report = export_failure_report(&failures);
    assert_eq!(report.lines, vec![String::from("  b: x"), String::from("  a: y")]);
    assert_eq!(report.hint, Some(String::from(HINT)));
}

#[test]
fn cause_chain_renders_as_successive_segments() {
    let f = failure("feature", ExportFailureKind::Other, &["A", "B", "C"]);
    assert_eq!(failure_line(&f), "  feature: A: B: C");
}

#[test]
fn empty_cause_chain_renders_the_bare_name() {
    let f = failure("feature", ExportFailureKind::Other, &[]);
    assert_eq!(failure_line(&f), "  feature");
}
