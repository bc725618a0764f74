use clippy_action::check_run::{Annotation, AnnotationLevel, TranslateError};
use clippy_action::check_run::strip_root;
use clippy_action::clippy::{select_primary_span, CompilerMessage, Message, Span, Target};

fn span(line_start: u64, line_end: u64, column_start: u64, column_end: u64, is_primary: bool) -> Span {
    Span { line_start, line_end, column_start, column_end, is_primary }
}

fn record(path: &str, level: &str, spans: Vec<Span>) -> CompilerMessage {
    CompilerMessage {
        target: Target { src_path: path.to_owned(), name: "demo".to_owned() },
        message: Message {
            message: "unused variable".to_owned(),
            level: level.to_owned(),
            spans,
            rendered: "warning: unused variable\n --> src/lib.rs:3:9".to_owned(),
        },
    }
}

#[test]
fn single_primary_span_is_selected_wherever_it_stands() {
    let spans = vec![span(1, 1, 1, 2, false), span(2, 2, 3, 4, false), span(7, 7, 5, 9, true)];
    let a = Annotation::from_clippy_message("/ws", record("/ws/src/lib.rs", "warning", spans)).unwrap();
    assert_eq!(a.start_line, 7);
    assert_eq!(a.end_line, 7);
    assert_eq!(a.start_column, Some(5));
    assert_eq!(a.end_column, Some(9));

    let spans = vec![span(4, 4, 1, 2, true), span(9, 9, 3, 4, false)];
    let a = Annotation::from_clippy_message("/ws", record("/ws/src/lib.rs", "warning", spans)).unwrap();
    assert_eq!(a.start_line, 4);
}

#[test]
fn first_of_several_primary_spans_is_selected() {
    let spans = vec![span(1, 1, 1, 2, false), span(2, 2, 3, 4, true), span(3, 3, 1, 1, true)];
    assert_eq!(select_primary_span(&spans), Some(1));
}

#[test]
fn no_primary_span_selects_the_first() {
    let spans = vec![span(11, 11, 2, 6, false), span(20, 20, 1, 1, false)];
    let a = Annotation::from_clippy_message("/ws", record("/ws/src/lib.rs", "warning", spans)).unwrap();
    assert_eq!(a.start_line, 11);
    assert_eq!(a.start_column, Some(2));
    assert_eq!(a.end_column, Some(6));
}

#[test]
fn empty_span_list_is_an_error() {
    let r = Annotation::from_clippy_message("/ws", record("/ws/src/lib.rs", "warning", vec![]));
    assert_eq!(r.unwrap_err(), TranslateError::NoSpans);
    assert_eq!(select_primary_span(&vec![]), None);
}

#[test]
fn multi_line_span_has_no_columns() {
    let spans = vec![span(3, 8, 5, 2, true)];
    let a = Annotation::from_clippy_message("/ws", record("/ws/src/lib.rs", "error", spans)).unwrap();
    assert_eq!(a.start_line, 3);
    assert_eq!(a.end_line, 8);
    assert_eq!(a.start_column, None);
    assert_eq!(a.end_column, None);
}

#[test]
fn severity_maps_to_level() {
    let level = |l: &str| {
        Annotation::from_clippy_message("/ws", record("/ws/a.rs", l, vec![span(1, 1, 1, 1, true)]))
            .unwrap()
            .annotation_level
    };
    assert_eq!(level("error"), AnnotationLevel::Error);
    assert_eq!(level("warning"), AnnotationLevel::Warning);
    assert_eq!(level("note"), AnnotationLevel::Info);
    assert_eq!(level("help"), AnnotationLevel::Info);
    assert_eq!(level(""), AnnotationLevel::Info);
    assert_eq!(AnnotationLevel::from_severity("Warning"), AnnotationLevel::Info);
}

#[test]
fn path_under_root_is_made_relative() {
    let a = Annotation::from_clippy_message(
        "/home/runner/work",
        record("/home/runner/work/src/lib.rs", "warning", vec![span(1, 1, 1, 1, true)]),
    )
    .unwrap();
    assert_eq!(a.path, "src/lib.rs");
    assert_eq!(a.message, "warning: unused variable\n --> src/lib.rs:3:9");
}

#[test]
fn path_outside_root_is_an_error() {
    let r = Annotation::from_clippy_message(
        "/home/runner/work",
        record("/tmp/src/lib.rs", "warning", vec![span(1, 1, 1, 1, true)]),
    );
    assert_eq!(r.unwrap_err(), TranslateError::PathOutsideWorkspace);
}

#[test]
fn path_error_comes_before_span_error() {
    let r = Annotation::from_clippy_message("/ws", record("/other/lib.rs", "warning", vec![]));
    assert_eq!(r.unwrap_err(), TranslateError::PathOutsideWorkspace);
}

#[test]
fn root_prefix_must_end_at_a_component() {
    assert_eq!(strip_root("/wsx/src/lib.rs", "/ws"), None);
    assert_eq!(strip_root("/ws/src/lib.rs", "/ws/"), Some("src/lib.rs".to_owned()));
    assert_eq!(strip_root("/ws", "/ws"), Some(String::new()));
    assert_eq!(strip_root("/w", "/ws"), None);
    assert_eq!(strip_root("/wß/ü.rs", "/wß"), Some("ü.rs".to_owned()));
}

#[test]
fn repeated_separators_after_root_are_dropped() {
    assert_eq!(strip_root("/ws//a", "/ws"), Some("a".to_owned()));
    assert_eq!(strip_root("/ws///src/lib.rs", "/ws/"), Some("src/lib.rs".to_owned()));
    assert_eq!(strip_root("/ws//", "/ws"), Some(String::new()));
    let a = Annotation::from_clippy_message(
        "/ws",
        record("/ws//a", "warning", vec![span(1, 1, 1, 1, true)]),
    )
    .unwrap();
    assert_eq!(a.path, "a");
}
