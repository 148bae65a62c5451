use toolset_io::logger::Logger;
use toolset_io::report::{report_verifications, Verification, VerificationMessage};

fn msg(short: &str) -> VerificationMessage {
    VerificationMessage { message: format!("long form of {}", short), short_message: short.to_string() }
}

fn outcome(fw: &str, ty: &str, errors: Vec<VerificationMessage>, warnings: Vec<VerificationMessage>) -> Verification {
    Verification {
        framework_name: fw.to_string(),
        test_type: ty.to_string(),
        warnings,
        errors,
    }
}

fn file_logger() -> Logger {
    Logger::in_dir("results/20200619191252")
}

fn border() -> String {
    "=".repeat(79)
}

fn divider() -> String {
    "-".repeat(79)
}

#[test]
fn summary_scenario_with_a_pass_and_an_error() {
    let outcomes = vec![
        outcome("gemini", "json", vec![], vec![]),
        outcome("gemini", "plaintext", vec![msg("timeout")], vec![]),
    ];
    let out = report_verifications(outcomes, file_logger(), true);
    let files: Vec<&str> = out.file_lines.iter().map(|s| s.as_str()).collect();
    assert_eq!(
        files,
        vec![
            border().as_str(),
            "Verification Summary",
            divider().as_str(),
            "| gemini",
            "|       json         : PASS",
            "|       plaintext    : ERROR - timeout",
            border().as_str(),
        ]
    );
    assert_eq!(out.console_lines.len(), 7);
    assert_eq!(
        out.logger.log_file_path(),
        Some(&"results/20200619191252/benchmark.txt".to_string())
    );
}

#[test]
fn errors_take_priority_over_warnings() {
    let outcomes = vec![outcome(
        "actix",
        "db",
        vec![msg("bad status"), msg("second error")],
        vec![msg("slow")],
    )];
    let out = report_verifications(outcomes, file_logger(), true);
    assert_eq!(out.file_lines[4], "|       db           : ERROR - bad status");
}

#[test]
fn warnings_show_when_there_is_no_error() {
    let outcomes = vec![outcome("actix", "fortune", vec![], vec![msg("slow"), msg("later")])];
    let out = report_verifications(outcomes, file_logger(), true);
    assert_eq!(out.file_lines[4], "|       fortune      : WARN  - slow");
}

#[test]
fn pass_line_has_no_trailing_message() {
    let outcomes = vec![outcome("actix", "query", vec![], vec![])];
    let out = report_verifications(outcomes, file_logger(), true);
    assert_eq!(out.file_lines[4], "|       query        : PASS");
    assert!(!out.file_lines[4].contains('-'));
}

#[test]
fn long_test_type_is_not_truncated() {
    let outcomes = vec![outcome("actix", "cached-queries", vec![], vec![])];
    let out = report_verifications(outcomes, file_logger(), true);
    assert_eq!(out.file_lines[4], "|       cached-queries: PASS");
}

#[test]
fn frameworks_group_in_first_seen_order() {
    let outcomes = vec![
        outcome("gemini", "json", vec![], vec![]),
        outcome("actix", "json", vec![], vec![]),
        outcome("gemini", "db", vec![], vec![]),
    ];
    let out = report_verifications(outcomes, file_logger(), true);
    let files: Vec<&str> = out.file_lines.iter().map(|s| s.as_str()).collect();
    assert_eq!(
        files,
        vec![
            border().as_str(),
            "Verification Summary",
            divider().as_str(),
            "| gemini",
            "|       json         : PASS",
            "|       db           : PASS",
            "| actix",
            "|       json         : PASS",
            border().as_str(),
        ]
    );
}

#[test]
fn empty_report_renders_only_borders_and_title() {
    let out = report_verifications(vec![], file_logger(), true);
    let files: Vec<&str> = out.file_lines.iter().map(|s| s.as_str()).collect();
    assert_eq!(files, vec![border().as_str(), "Verification Summary", divider().as_str(), border().as_str()]);
}

#[test]
fn report_without_log_dir_keeps_console_output_only() {
    let out = report_verifications(vec![outcome("gemini", "json", vec![], vec![])], Logger::default(), false);
    assert_eq!(out.file_lines.len(), 0);
    assert_eq!(out.console_lines.len(), 6);
    assert!(out.logger.log_file_path().is_none());
}
