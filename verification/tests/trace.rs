use scm_record::rect::Rect;
use scm_record::trace::DrawTrace;
use std::collections::HashMap;

fn rect(x: isize, y: isize, width: usize, height: usize) -> Rect {
    Rect { x, y, width, height }
}

fn trace(rect: Rect, components: &[(&'static str, Rect)]) -> DrawTrace<&'static str> {
    DrawTrace { rect, components: components.iter().copied().collect() }
}

fn entries(trace: &DrawTrace<&'static str>) -> Vec<(&'static str, Rect)> {
    let mut entries: Vec<_> = trace.components.iter().map(|(id, rect)| (*id, *rect)).collect();
    entries.sort();
    entries
}

#[test]
fn default_trace_is_empty() {
    let trace: DrawTrace<u64> = DrawTrace::default();
    assert_eq!(trace.rect, rect(0, 0, 0, 0));
    assert_eq!(trace.components, HashMap::new());
}

#[test]
fn merge_rect_grows_the_bounding_box_only() {
    let mut t = trace(rect(0, 0, 2, 2), &[("a", rect(0, 0, 1, 1))]);
    t.merge_rect(rect(5, 5, 1, 1));
    assert_eq!(t.rect, rect(0, 0, 6, 6));
    assert_eq!(entries(&t), vec![("a", rect(0, 0, 1, 1))]);
}

#[test]
fn merge_rect_into_an_empty_trace_takes_the_rect() {
    let mut t: DrawTrace<&'static str> = DrawTrace::default();
    t.merge_rect(rect(5, 5, 3, 1));
    assert_eq!(t.rect, rect(5, 5, 3, 1));
    t.merge_rect(rect(40, 40, 0, 0));
    assert_eq!(t.rect, rect(5, 5, 3, 1));
}

#[test]
fn merge_copies_every_entry_and_grows_the_bounding_box() {
    let mut t = trace(rect(0, 0, 2, 2), &[("a", rect(0, 0, 1, 1)), ("b", rect(1, 1, 1, 1))]);
    let other = trace(rect(10, 0, 2, 2), &[("c", rect(10, 0, 2, 2)), ("d", rect(11, 1, 1, 1))]);
    t.merge(other);
    assert_eq!(t.rect, rect(0, 0, 12, 2));
    assert_eq!(
        entries(&t),
        vec![
            ("a", rect(0, 0, 1, 1)),
            ("b", rect(1, 1, 1, 1)),
            ("c", rect(10, 0, 2, 2)),
            ("d", rect(11, 1, 1, 1)),
        ]
    );
}

#[test]
fn merge_replaces_an_entry_for_the_same_component() {
    let mut t = trace(rect(0, 0, 2, 2), &[("a", rect(0, 0, 1, 1)), ("b", rect(1, 1, 1, 1))]);
    let other = trace(rect(0, 0, 2, 2), &[("a", rect(0, 0, 2, 2))]);
    t.merge(other);
    assert_eq!(entries(&t), vec![("a", rect(0, 0, 2, 2)), ("b", rect(1, 1, 1, 1))]);
}

#[test]
fn merge_of_an_empty_trace_changes_nothing() {
    let mut t = trace(rect(0, 0, 2, 2), &[("a", rect(0, 0, 1, 1))]);
    t.merge(DrawTrace::default());
    assert_eq!(t.rect, rect(0, 0, 2, 2));
    assert_eq!(entries(&t), vec![("a", rect(0, 0, 1, 1))]);
}

#[test]
fn bounding_rect_covers_the_box_and_every_component() {
    let t = trace(
        rect(3, 3, 1, 1),
        &[("a", rect(0, 0, 1, 1)), ("b", rect(10, 2, 2, 6)), ("c", rect(-4, 5, 1, 1))],
    );
    assert_eq!(t.bounding_rect(), rect(-4, 0, 16, 8));
}

#[test]
fn bounding_rect_ignores_empty_rects() {
    let t = trace(
        rect(50, 50, 0, 0),
        &[("a", rect(1, 1, 2, 2)), ("b", rect(-70, 2, 0, 6)), ("c", rect(90, 90, 4, 0))],
    );
    assert_eq!(t.bounding_rect(), rect(1, 1, 2, 2));
}

#[test]
fn bounding_rect_of_a_trace_without_components_is_its_box() {
    assert_eq!(trace(rect(3, 3, 4, 1), &[]).bounding_rect(), rect(3, 3, 4, 1));
    assert_eq!(trace(rect(3, 3, 0, 1), &[]).bounding_rect(), rect(3, 3, 0, 1));
}

#[test]
fn bounding_rect_of_empty_rects_is_one_of_them() {
    let t = trace(rect(1, 1, 0, 0), &[("a", rect(2, 2, 0, 0)), ("b", rect(3, 3, 0, 5))]);
    let bounding = t.bounding_rect();
    assert!(bounding.is_empty());
    assert!([rect(1, 1, 0, 0), rect(2, 2, 0, 0), rect(3, 3, 0, 5)].contains(&bounding));
}

#[test]
fn close_records_the_bounding_rect_for_the_component() {
    let mut t = trace(rect(3, 3, 1, 1), &[("a", rect(0, 0, 1, 1)), ("b", rect(10, 2, 2, 6))]);
    let own = t.close("parent");
    assert_eq!(own, rect(0, 0, 12, 8));
    assert_eq!(t.rect, rect(0, 0, 12, 8));
    assert_eq!(
        entries(&t),
        vec![("a", rect(0, 0, 1, 1)), ("b", rect(10, 2, 2, 6)), ("parent", rect(0, 0, 12, 8))]
    );
}

#[test]
fn close_replaces_what_a_child_recorded_for_the_same_identifier() {
    let mut t = trace(rect(0, 0, 4, 4), &[("a", rect(0, 0, 1, 1)), ("b", rect(1, 1, 1, 1))]);
    let own = t.close("a");
    assert_eq!(own, rect(0, 0, 4, 4));
    assert_eq!(entries(&t), vec![("a", rect(0, 0, 4, 4)), ("b", rect(1, 1, 1, 1))]);
}

#[test]
fn close_of_a_trace_that_covers_its_components_keeps_the_box() {
    let mut t = trace(rect(-2, -2, 20, 20), &[("a", rect(0, 0, 1, 1)), ("b", rect(5, 5, 2, 2))]);
    assert_eq!(t.close("parent"), rect(-2, -2, 20, 20));
}
