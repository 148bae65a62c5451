use toolset_io::logger::Logger;

fn file_logger() -> Logger {
    let mut lg = Logger::in_dir("results/20200619191252");
    lg.set_log_file("benchmark.txt", true);
    lg
}

#[test]
fn write_splits_lines_and_drops_blank_ones() {
    let lg = file_logger();
    let out = lg.log("first\n\n   \nsecond\n");
    let files: Vec<&str> = out.file_lines.iter().map(|s| s.as_str()).collect();
    assert_eq!(files, vec!["first", "second"]);
    assert_eq!(out.console_lines.len(), 2);
    assert_eq!(out.console_lines[0].body, "first");
    assert_eq!(out.console_lines[1].body, "second");
}

#[test]
fn file_copy_is_stripped_of_ansi_escapes() {
    let lg = file_logger();
    let out = lg.log("\u{1b}[31mred alert\u{1b}[0m");
    assert_eq!(out.file_lines.len(), 1);
    assert_eq!(out.file_lines[0], "red alert");
}

#[test]
fn console_trims_trailing_whitespace_but_file_keeps_it() {
    let lg = file_logger();
    let out = lg.log("padded   ");
    assert_eq!(out.file_lines[0], "padded   ");
    assert_eq!(out.console_lines[0].body, "padded");
}

#[test]
fn carriage_returns_are_dropped_from_kept_lines() {
    let lg = file_logger();
    let out = lg.log("one\r\ntwo\r\n");
    let files: Vec<&str> = out.file_lines.iter().map(|s| s.as_str()).collect();
    assert_eq!(files, vec!["one", "two"]);
}

#[test]
fn transcript_equals_console_for_plain_text() {
    let lg = file_logger();
    let out = lg.log("alpha\nbeta");
    let bodies: Vec<String> = out.console_lines.iter().map(|c| c.body.clone()).collect();
    let files: Vec<String> = out.file_lines.clone();
    assert_eq!(files, bodies);
}

#[test]
fn repeated_writes_append_identical_lines() {
    let lg = file_logger();
    let first = lg.log("same line");
    let second = lg.log("same line");
    assert_eq!(first.file_lines, second.file_lines);
    assert_eq!(first.console_lines.len(), second.console_lines.len());
    let mut transcript: Vec<String> = Vec::new();
    transcript.extend(first.file_lines);
    transcript.extend(second.file_lines);
    assert_eq!(transcript, vec!["same line", "same line"]);
}

#[test]
fn quiet_logger_still_writes_the_file() {
    let mut lg = file_logger();
    lg.quiet = true;
    let out = lg.log("kept");
    assert_eq!(out.file_lines.len(), 1);
    assert_eq!(out.file_lines[0], "kept");
    assert_eq!(out.console_lines.len(), 0);
}

#[test]
fn console_only_logger_writes_no_file_lines() {
    let lg = Logger::default();
    let out = lg.log("hello");
    assert_eq!(out.file_lines.len(), 0);
    assert_eq!(out.console_lines.len(), 1);
    assert!(out.console_lines[0].styled_prefix.is_none());
}

#[test]
fn prefixed_logger_styles_a_prefix_on_each_console_line() {
    let lg = Logger::with_prefix("gemini");
    let out = lg.log("starting");
    assert_eq!(out.console_lines.len(), 1);
    assert!(out.console_lines[0].styled_prefix.is_some());
}

#[test]
fn scoping_descends_into_the_test_subdirectory() {
    let mut lg = Logger::in_dir("results/20200619191252");
    assert_eq!(
        lg.test_log_dir("gemini"),
        Some("results/20200619191252/gemini".to_string())
    );
    lg.set_test("gemini", true);
    assert_eq!(
        lg.log_file_target("benchmark.txt"),
        Some("results/20200619191252/gemini/benchmark.txt".to_string())
    );
}

#[test]
fn scope_and_bind_without_log_dir_leave_the_file_sink_unset() {
    let mut lg = Logger::default();
    assert!(lg.test_log_dir("gemini").is_none());
    lg.set_test("gemini", false);
    lg.set_log_file("benchmark.txt", true);
    assert!(lg.log_file_path().is_none());
    let out = lg.log("still console only");
    assert_eq!(out.file_lines.len(), 0);
    assert_eq!(out.console_lines.len(), 1);
}

#[test]
fn failed_directory_creation_keeps_the_previous_log_dir() {
    let mut lg = Logger::in_dir("results");
    lg.set_test("gemini", false);
    assert_eq!(
        lg.log_file_target("benchmark.txt"),
        Some("results/benchmark.txt".to_string())
    );
}

#[test]
fn error_writes_plain_lines_to_the_file() {
    let lg = file_logger();
    let out = lg.error("something failed\nbadly");
    let files: Vec<&str> = out.file_lines.iter().map(|s| s.as_str()).collect();
    assert_eq!(files, vec!["something failed", "badly"]);
    assert_eq!(out.console_lines.len(), 2);
}
