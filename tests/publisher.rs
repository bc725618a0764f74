use clippy_action::check_run::{Annotation, AnnotationLevel};
use clippy_action::publisher::{Publisher, BATCH_SIZE};

fn annotation(n: u64) -> Annotation {
    Annotation {
        annotation_level: AnnotationLevel::Warning,
        message: format!("issue {}", n),
        path: "src/lib.rs".to_owned(),
        start_line: n,
        end_line: n,
        start_column: Some(1),
        end_column: Some(2),
    }
}

#[test]
fn fifty_pushes_flush_once_in_order() {
    assert_eq!(BATCH_SIZE, 50);
    let mut p = Publisher::new();
    for n in 0..49u64 {
        assert!(p.push(annotation(n)).is_none());
    }
    let batch = p.push(annotation(49)).expect("the fiftieth push flushes");
    assert_eq!(batch.len(), 50);
    for (i, a) in batch.iter().enumerate() {
        assert_eq!(a.start_line, i as u64);
    }
    assert_eq!(p.len(), 0);
    assert!(p.push(annotation(50)).is_none());
    assert_eq!(p.len(), 1);
}

#[test]
fn forty_nine_pushes_then_finish_give_one_batch() {
    let mut p = Publisher::new();
    for n in 0..49u64 {
        assert!(p.push(annotation(n)).is_none());
    }
    let rest = p.finish();
    assert_eq!(rest.len(), 49);
    for (i, a) in rest.iter().enumerate() {
        assert_eq!(a.start_line, i as u64);
    }
}

#[test]
fn finish_of_empty_publisher_is_empty() {
    let p = Publisher::new();
    assert!(p.finish().is_empty());
}
