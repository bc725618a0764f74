use clippy_action::action::{
    decimal_string, is_compiler_message, issues_summary, ActionOptions, LineEvent, Run, RunError,
};
use clippy_action::check_run::{
    AnnotationLevel, CheckDetails, CheckRun, Conclusion, Status, Timestamp, TranslateError,
};
use clippy_action::clippy::{CompilerMessage, Message, Span, Target};

fn diagnostic(path: &str, line: u64) -> CompilerMessage {
    CompilerMessage {
        target: Target { src_path: path.to_owned(), name: "demo".to_owned() },
        message: Message {
            message: "needless return".to_owned(),
            level: "warning".to_owned(),
            spans: vec![Span {
                line_start: line,
                line_end: line,
                column_start: 5,
                column_end: 17,
                is_primary: false,
            }],
            rendered: format!("warning: needless return at {}", line),
        },
    }
}

fn start(ignore_parse_errors: bool) -> (Run, CheckRun) {
    let options = ActionOptions::new(
        "Clippy".to_owned(),
        "Lints".to_owned(),
        "clippy.out.json".to_owned(),
        ignore_parse_errors,
    );
    Run::start(options, "abc123".to_owned(), "/ws".to_owned())
}

const AT: Timestamp = Timestamp { seconds: 1_600_000_000, nanos: 250 };

#[test]
fn opening_message_is_in_progress() {
    let (run, opening) = start(false);
    assert_eq!(run.issue_count(), 0);
    assert_eq!(opening.details.name, "Clippy");
    assert_eq!(opening.details.head_sha, "abc123");
    assert_eq!(opening.details.title, "Lints");
    assert_eq!(opening.details.summary, "In Progress");
    assert_eq!(opening.status, Status::InProgress);
    assert!(opening.completed_at.is_none());
    assert!(opening.conclusion.is_none());
    assert!(opening.output.is_none());
}

#[test]
fn reason_selects_diagnostic_records() {
    assert!(is_compiler_message("compiler-message"));
    assert!(!is_compiler_message("compiler-artifact"));
    assert!(!is_compiler_message("build-finished"));
    assert!(!is_compiler_message(""));
}

#[test]
fn stream_without_diagnostics_succeeds() {
    let (mut run, _) = start(false);
    for _ in 0..7 {
        assert!(run.step(LineEvent::Other).unwrap().is_none());
    }
    let closing = run.finish_at(AT);
    assert_eq!(closing.conclusion, Some(Conclusion::Success));
    assert_eq!(closing.details.summary, "0 issues found");
    let output = closing.output.unwrap();
    assert!(output.annotations.is_empty());
    assert_eq!(output.summary, "0 issues found");
    assert_eq!(closing.completed_at, Some(AT));
}

#[test]
fn malformed_record_is_skipped_when_ignored() {
    let (mut run, _) = start(true);
    assert!(run.step(LineEvent::Diagnostic(diagnostic("/ws/src/a.rs", 1))).unwrap().is_none());
    assert!(run.step(LineEvent::Diagnostic(diagnostic("/ws/src/b.rs", 2))).unwrap().is_none());
    assert!(run.step(LineEvent::Malformed).unwrap().is_none());
    assert!(run.step(LineEvent::Diagnostic(diagnostic("/ws/src/c.rs", 3))).unwrap().is_none());
    assert_eq!(run.issue_count(), 3);
    let closing = run.finish_at(AT);
    assert_eq!(closing.conclusion, Some(Conclusion::Failure));
    assert_eq!(closing.details.summary, "3 issues found");
    let output = closing.output.unwrap();
    let paths: Vec<&str> = output.annotations.iter().map(|a| a.path.as_str()).collect();
    assert_eq!(paths, vec!["src/a.rs", "src/b.rs", "src/c.rs"]);
}

#[test]
fn malformed_record_is_fatal_when_not_ignored() {
    let (mut run, _) = start(false);
    assert!(run.step(LineEvent::Diagnostic(diagnostic("/ws/src/a.rs", 1))).unwrap().is_none());
    assert!(run.step(LineEvent::Diagnostic(diagnostic("/ws/src/b.rs", 2))).unwrap().is_none());
    assert_eq!(run.step(LineEvent::Malformed).unwrap_err(), RunError::Decode);
}

#[test]
fn translation_error_is_fatal_even_when_ignoring() {
    let (mut run, _) = start(true);
    let r = run.step(LineEvent::Diagnostic(diagnostic("/elsewhere/src/a.rs", 1)));
    assert_eq!(r.unwrap_err(), RunError::Translate(TranslateError::PathOutsideWorkspace));
    assert_eq!(run.issue_count(), 0);
}

#[test]
fn hundred_twenty_records_give_two_updates_and_a_closing_batch() {
    let (mut run, _) = start(false);
    let mut updates: Vec<CheckRun> = Vec::new();
    for n in 0..120u64 {
        let event = LineEvent::Diagnostic(diagnostic("/ws/src/lib.rs", n + 1));
        if let Some(update) = run.step(event).unwrap() {
            updates.push(update);
        }
        assert!(run.step(LineEvent::Other).unwrap().is_none());
    }
    assert_eq!(updates.len(), 2);
    let mut line = 1;
    for update in &updates {
        assert_eq!(update.status, Status::InProgress);
        assert!(update.conclusion.is_none());
        assert!(update.completed_at.is_none());
        let output = update.output.as_ref().unwrap();
        assert_eq!(output.title, "Lints");
        assert_eq!(output.summary, "In Progress");
        assert_eq!(output.annotations.len(), 50);
        for a in &output.annotations {
            assert_eq!(a.start_line, line);
            assert_eq!(a.annotation_level, AnnotationLevel::Warning);
            assert_eq!(a.start_column, Some(5));
            assert_eq!(a.end_column, Some(17));
            line += 1;
        }
    }
    let closing = run.finish_at(AT);
    assert_eq!(closing.conclusion, Some(Conclusion::Failure));
    assert_eq!(closing.details.summary, "120 issues found");
    assert_eq!(closing.status, Status::InProgress);
    let output = closing.output.unwrap();
    assert_eq!(output.annotations.len(), 20);
    assert_eq!(output.annotations[0].start_line, 101);
    assert_eq!(output.annotations[19].start_line, 120);
}

#[test]
fn finish_stamps_a_completion_time() {
    let (run, _) = start(false);
    let closing = run.finish();
    assert!(closing.completed_at.is_some());
    assert_eq!(closing.conclusion, Some(Conclusion::Success));
}

#[test]
fn details_summary_can_be_updated() {
    let mut d = CheckDetails::create("n".to_owned(), "s".to_owned(), "t".to_owned(), "a".to_owned());
    d.update_summary("b".to_owned());
    assert_eq!(d.summary, "b");
    assert_eq!(d.name, "n");
    let c = d.copy();
    assert_eq!(c.head_sha, "s");
    assert_eq!(c.title, "t");
}

#[test]
fn summary_writes_the_count_in_decimal() {
    assert_eq!(decimal_string(0), "0");
    assert_eq!(decimal_string(7), "7");
    assert_eq!(decimal_string(10), "10");
    assert_eq!(decimal_string(1203), "1203");
    assert_eq!(decimal_string(u64::MAX), "18446744073709551615");
    assert_eq!(issues_summary(0), "0 issues found");
    assert_eq!(issues_summary(1), "1 issues found");
    assert_eq!(issues_summary(120), "120 issues found");
}
