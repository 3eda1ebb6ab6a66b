use odradek_acceptance::args::{judge_against, judge_alone};
use odradek_acceptance::raw::WireError;
use odradek_acceptance::report::{
    check_format, explain_parse_error, suite, Baseline, BaselineDiff, BaselineStatus, CheckOutcome,
    Report, FORMAT,
};
use odradek_acceptance::{CheckId, SubjectRole, Verdict};

fn outcome(id: &str, verdict: Verdict) -> CheckOutcome {
    CheckOutcome::new(CheckId(id.to_owned()), format!("{id} holds"), verdict)
}

fn fail(details: &str) -> Verdict {
    Verdict::Fail { details: details.to_owned() }
}

fn skip(reason: &str) -> Verdict {
    Verdict::Skipped { reason: reason.to_owned() }
}

fn error(details: &str) -> Verdict {
    Verdict::Error { details: details.to_owned() }
}

fn mixed() -> Report {
    Report::new(
        "server localhost:9092".to_owned(),
        vec![
            outcome("b/pass", Verdict::Pass),
            outcome("a/fail", fail("saw 3")),
            outcome("c/skip", skip("no such api")),
            outcome("d/error", error("refused")),
            outcome("e/pass", Verdict::Pass),
        ],
    )
}

fn without_errors() -> Report {
    Report::new(
        "server x".to_owned(),
        vec![
            outcome("b", Verdict::Pass),
            outcome("a", fail("saw 3")),
            outcome("c", skip("no such api")),
        ],
    )
}

#[test]
fn counts_add_up() {
    let report = mixed();
    assert_eq!(report.passed(), 2);
    assert_eq!(report.failed(), 1);
    assert_eq!(report.skipped(), 1);
    assert_eq!(report.errored(), 1);
    assert_eq!(report.format, FORMAT);
    assert_eq!(report.suite, "0.1.0");
    assert_eq!(suite(), "0.1.0");
}

#[test]
fn only_a_failure_makes_a_run_nonconformant() {
    assert!(!mixed().is_conformant());
    let rest = Report::new(
        "s".to_owned(),
        vec![outcome("a", Verdict::Pass), outcome("b", skip("")), outcome("c", error(""))],
    );
    assert!(rest.is_conformant());
    assert!(Report::new("s".to_owned(), vec![]).is_conformant());
}

#[test]
fn a_verdict_is_found_by_its_id() {
    let report = mixed();
    assert_eq!(report.verdict("a/fail"), Some(&fail("saw 3")));
    assert_eq!(report.verdict("z"), None);
    let twice = Report::new(
        "s".to_owned(),
        vec![outcome("a", Verdict::Pass), outcome("a", fail("later"))],
    );
    assert_eq!(twice.verdict("a"), Some(&Verdict::Pass));
}

#[test]
fn a_report_reads_line_by_line() {
    assert_eq!(
        mixed().text(),
        "conformance report for server localhost:9092\n  PASS b/pass\n  FAIL a/fail\n       \
         requirement: a/fail holds\n       observed: saw 3\n  SKIP c/skip (no such api)\n  \
         ERROR d/error\n        could not run: refused\n  PASS e/pass\n2 passed, 1 failed, 1 \
         skipped, 1 errored"
    );
    assert_eq!(
        Report::new("nobody".to_owned(), vec![]).text(),
        "conformance report for nobody\n0 passed, 0 failed, 0 skipped, 0 errored"
    );
}

#[test]
fn a_baseline_keeps_statuses_in_the_order_of_their_names() {
    let baseline = mixed().to_baseline();
    assert_eq!(baseline.format, FORMAT);
    assert_eq!(baseline.suite, "0.1.0");
    let rows: Vec<(&str, BaselineStatus)> =
        baseline.checks.iter().map(|e| (e.id.as_str(), e.status)).collect();
    assert_eq!(
        rows,
        vec![
            ("a/fail", BaselineStatus::Fail),
            ("b/pass", BaselineStatus::Pass),
            ("c/skip", BaselineStatus::Skipped),
            ("d/error", BaselineStatus::Error),
            ("e/pass", BaselineStatus::Pass),
        ]
    );
}

#[test]
fn a_later_outcome_of_one_id_wins_in_the_baseline() {
    let twice = Report::new(
        "s".to_owned(),
        vec![outcome("a", Verdict::Pass), outcome("a", fail("later"))],
    );
    let baseline = twice.to_baseline();
    assert_eq!(baseline.checks.len(), 1);
    assert_eq!(baseline.expected("a"), Some(BaselineStatus::Fail));
}

#[test]
fn a_run_matches_its_own_baseline_unless_it_erred() {
    let report = without_errors();
    assert_eq!(report.diff_against(&report.to_baseline()), vec![]);
    let report = mixed();
    assert_eq!(
        report.diff_against(&report.to_baseline()),
        vec![BaselineDiff::Infrastructure {
            id: "d/error".to_owned(),
            details: "refused".to_owned()
        }]
    );
}

#[test]
fn every_kind_of_divergence_is_told_apart() {
    let mut baseline = Baseline::empty(FORMAT, "0.1.0".to_owned());
    baseline.expect("b/pass".to_owned(), BaselineStatus::Pass);
    baseline.expect("a/fail".to_owned(), BaselineStatus::Pass);
    baseline.expect("gone".to_owned(), BaselineStatus::Skipped);
    baseline.expect("d/error".to_owned(), BaselineStatus::Error);
    baseline.expect("e/pass".to_owned(), BaselineStatus::Fail);
    let diffs = mixed().diff_against(&baseline);
    let texts: Vec<String> = diffs.iter().map(|d| d.text()).collect();
    assert_eq!(
        texts,
        vec![
            "a/fail: expected pass, got fail",
            "c/skip: ran (skipped) but the baseline has no entry — re-record the baseline to adopt \
             the new check",
            "d/error: infrastructure — the check could not run (refused); not evidence of \
             nonconformance",
            "e/pass: expected fail, got pass",
            "gone: baseline expects skipped, but no such check exists any more — re-record the \
             baseline",
        ]
    );
}

#[test]
fn expecting_twice_keeps_the_last() {
    let mut baseline = Baseline::empty(7, "x".to_owned());
    assert_eq!(baseline.expected("a"), None);
    baseline.expect("a".to_owned(), BaselineStatus::Pass);
    baseline.expect("B".to_owned(), BaselineStatus::Pass);
    baseline.expect("a".to_owned(), BaselineStatus::Error);
    assert_eq!(baseline.expected("a"), Some(BaselineStatus::Error));
    let ids: Vec<&str> = baseline.checks.iter().map(|e| e.id.as_str()).collect();
    assert_eq!(ids, vec!["B", "a"]);
    assert_eq!(baseline.format, 7);
}

#[test]
fn statuses_have_lower_case_names() {
    let names: Vec<&str> = [Verdict::Pass, fail("x"), skip("x"), error("x")]
        .iter()
        .map(|v| BaselineStatus::of(v).text())
        .collect();
    assert_eq!(names, vec!["pass", "fail", "skipped", "error"]);
    assert_eq!(SubjectRole::Server.text(), "server");
    assert_eq!(SubjectRole::Client.text(), "client");
}

#[test]
fn only_one_format_is_read() {
    assert_eq!(check_format(1), Ok(()));
    assert_eq!(
        check_format(2),
        Err("format 2 is not supported (this suite reads format 1); re-record".to_owned())
    );
    assert!(check_format(0).is_err());
}

#[test]
fn a_file_without_a_format_is_explained() {
    assert_eq!(
        explain_parse_error("missing field `format` at line 1 column 2"),
        "missing field `format` at line 1 column 2 — the file predates the versioned envelope \
         (format 1); re-record"
    );
    assert_eq!(explain_parse_error("EOF while parsing"), "EOF while parsing");
}

#[test]
fn a_run_on_its_own_succeeds_where_nothing_failed_or_erred() {
    let good = Report::new("s".to_owned(), vec![outcome("a", Verdict::Pass)]);
    let ending = judge_alone(&good);
    assert!(ending.success);
    assert!(ending.lines.is_empty());
    let ending = judge_alone(&without_errors());
    assert!(!ending.success);
    assert!(ending.lines.is_empty());
    let ending = judge_alone(&mixed());
    assert!(!ending.success);
    assert_eq!(
        ending.lines,
        vec![
            "1 check(s) could not run (infrastructure) — the run proves neither conformance nor \
             nonconformance"
        ]
    );
}

#[test]
fn a_run_against_a_baseline_succeeds_where_it_matches() {
    let report = without_errors();
    let ending = judge_against(&report, "k.json", &Ok(report.to_baseline()));
    assert!(ending.success);
    assert_eq!(ending.lines, vec!["run matches baseline k.json"]);
    let empty = Baseline::empty(FORMAT, "0.1.0".to_owned());
    let one = Report::new("s".to_owned(), vec![outcome("a", Verdict::Pass)]);
    let ending = judge_against(&one, "k.json", &Ok(empty));
    assert!(!ending.success);
    assert_eq!(
        ending.lines,
        vec![
            "run diverges from baseline k.json:",
            "  a: ran (pass) but the baseline has no entry — re-record the baseline to adopt the \
             new check",
        ]
    );
    let ending = judge_against(&one, "k.json", &Err("no such file".to_owned()));
    assert!(!ending.success);
    assert_eq!(ending.lines, vec!["cannot read baseline k.json: no such file"]);
}

#[test]
fn wire_errors_say_what_happened() {
    assert_eq!(WireError::Io("reset".to_owned()).text(), "i/o error: reset");
    assert_eq!(WireError::Encode("bad".to_owned()).text(), "encode error: bad");
    assert_eq!(WireError::Timeout.text(), "timed out after 5s waiting for a response frame");
    assert_eq!(WireError::BadFrameLength(-3).text(), "frame length -3 out of range");
    assert_eq!(WireError::Tls("no roots".to_owned()).text(), "tls: no roots");
}
