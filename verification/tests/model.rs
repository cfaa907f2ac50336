//! Tests of the model's behaviour through its public interface.

use graph_model::Line;
use graph_model::Model;
use graph_model::Point;

#[test]
fn add_points_and_line() {
    let mut model = Model::new();

    assert_eq!(model.points.len(), 0);
    assert_eq!(model.lines.len(), 0);

    let p1 = model.add_point(0, 0, 0, 0);
    let p2 = model.add_point(1, 1, 1, 0);

    assert_eq!(model.points.len(), 2);
    assert_eq!(
        model.points[&p1],
        Point {
            x: 0,
            y: 0,
            z: 0,
            w: 0,
            lines: Vec::new(),
        }
    );
    assert_eq!(
        model.points[&p2],
        Point {
            x: 1,
            y: 1,
            z: 1,
            w: 0,
            lines: Vec::new(),
        }
    );
    assert_eq!(model.lines.len(), 0);

    let l1 = model.add_line(p1, p2);

    assert_eq!(model.lines.len(), 1);
    assert_eq!(model.lines[&l1], Line { p1, p2 });
    assert_eq!(model.points[&p1].lines.len(), 1);
    assert_eq!(model.points[&p2].lines.len(), 1);
    assert_eq!(model.points[&p1].lines[0], l1);
    assert_eq!(model.points[&p2].lines[0], l1);
}

#[test]
fn del_points_and_line() {
    let mut model = Model::new();

    let p1 = model.add_point(0, 0, 0, 0);
    let p2 = model.add_point(1, 1, 1, 1);
    let p3 = model.add_point(2, 2, 2, 2);

    let _l1 = model.add_line(p1, p2);
    let l2 = model.add_line(p2, p3);

    model.del_point(p1);

    assert_eq!(model.lines.len(), 1);
    assert_eq!(model.points.len(), 2);

    model.del_line(l2);
    assert_eq!(model.lines.len(), 0);
    assert_eq!(model.points.len(), 2);
}

#[test]
fn point_handles_start_at_one_and_increase() {
    let mut model = Model::new();
    assert_eq!(model.add_point(5, 6, 7, 8), 1);
    assert_eq!(model.add_point(-1, -2, -3, -4), 2);
    assert_eq!(model.add_point(0, 0, 0, 1), 3);
    assert_eq!(model.points[&1].x, 5);
    assert_eq!(model.points[&2].y, -2);
    assert_eq!(model.points[&3].w, 1);
}

#[test]
fn line_handles_are_numbered_independently() {
    let mut model = Model::new();
    let p1 = model.add_point(0, 0, 0, 0);
    let p2 = model.add_point(1, 0, 0, 0);
    let p3 = model.add_point(2, 0, 0, 0);
    assert_eq!(model.add_line(p1, p2), 1);
    assert_eq!(model.add_line(p2, p3), 2);
    assert_eq!(model.add_line(p3, p1), 3);
}

#[test]
fn new_handle_follows_largest_remaining_handle() {
    let mut model = Model::new();
    let _p1 = model.add_point(0, 0, 0, 0);
    let p2 = model.add_point(1, 1, 1, 1);
    model.del_point(p2);
    assert_eq!(model.add_point(2, 2, 2, 2), 2);
}

#[test]
fn add_line_records_incidence_on_both_endpoints() {
    let mut model = Model::new();
    let p1 = model.add_point(0, 0, 0, 0);
    let p2 = model.add_point(1, 1, 1, 0);
    let l1 = model.add_line(p1, p2);
    assert_eq!(l1, 1);
    assert_eq!(model.get_point_lines(p1), vec![1]);
    assert_eq!(model.get_point_lines(p2), vec![1]);
}

#[test]
fn add_line_skips_absent_endpoint() {
    let mut model = Model::new();
    let p1 = model.add_point(0, 0, 0, 0);
    let l1 = model.add_line(p1, 7);
    assert_eq!(l1, 1);
    assert_eq!(model.lines[&l1], Line { p1: 1, p2: 7 });
    assert_eq!(model.get_point_lines(p1), vec![1]);
}

#[test]
fn loop_line_is_recorded_twice() {
    let mut model = Model::new();
    let p1 = model.add_point(0, 0, 0, 0);
    let l1 = model.add_line(p1, p1);
    assert_eq!(model.get_point_lines(p1), vec![l1, l1]);
}

#[test]
fn del_line_removes_only_that_line() {
    let mut model = Model::new();
    let p1 = model.add_point(0, 0, 0, 0);
    let p2 = model.add_point(1, 1, 1, 1);
    let l1 = model.add_line(p1, p2);
    let l2 = model.add_line(p2, p1);
    model.del_line(l1);
    assert_eq!(model.lines.len(), 1);
    assert!(!model.lines.contains_key(&l1));
    assert!(model.lines.contains_key(&l2));
}

#[test]
fn del_line_on_absent_handle_is_a_no_op() {
    let mut model = Model::new();
    let p1 = model.add_point(0, 0, 0, 0);
    let p2 = model.add_point(1, 1, 1, 1);
    let _l1 = model.add_line(p1, p2);
    model.del_line(9);
    assert_eq!(model.lines.len(), 1);
    assert_eq!(model.points.len(), 2);
}

#[test]
fn del_line_twice_equals_once() {
    let mut model = Model::new();
    let p1 = model.add_point(0, 0, 0, 0);
    let p2 = model.add_point(1, 1, 1, 1);
    let l1 = model.add_line(p1, p2);
    model.del_line(l1);
    model.del_line(l1);
    assert_eq!(model.lines.len(), 0);
    assert_eq!(model.points.len(), 2);
    assert_eq!(model.get_point_lines(p1), vec![l1]);
}

#[test]
fn del_point_cascades_to_incident_lines() {
    let mut model = Model::new();
    let p1 = model.add_point(0, 0, 0, 0);
    let p2 = model.add_point(1, 1, 1, 1);
    let p3 = model.add_point(2, 2, 2, 2);
    let l1 = model.add_line(p1, p2);
    let l2 = model.add_line(p2, p3);
    model.del_point(p2);
    assert_eq!(model.points.len(), 2);
    assert_eq!(model.lines.len(), 0);
    assert!(!model.points.contains_key(&p2));
    assert!(!model.lines.contains_key(&l1));
    assert!(!model.lines.contains_key(&l2));
}

#[test]
fn del_point_twice_equals_once() {
    let mut model = Model::new();
    let p1 = model.add_point(0, 0, 0, 0);
    let p2 = model.add_point(1, 1, 1, 1);
    let _l1 = model.add_line(p1, p2);
    model.del_point(p1);
    model.del_point(p1);
    assert_eq!(model.points.len(), 1);
    assert_eq!(model.lines.len(), 0);
}

#[test]
fn del_point_leaves_stale_entry_on_other_endpoint() {
    let mut model = Model::new();
    let p1 = model.add_point(0, 0, 0, 0);
    let p2 = model.add_point(1, 1, 1, 1);
    let l1 = model.add_line(p1, p2);
    model.del_point(p1);
    assert!(!model.lines.contains_key(&l1));
    assert_eq!(model.get_point_lines(p2), vec![l1]);
}

#[test]
fn empty_model_by_default() {
    let model = Model::default();
    assert_eq!(model.points.len(), 0);
    assert_eq!(model.lines.len(), 0);
}

#[test]
fn two_points_one_line_scenario() {
    let mut model = Model::new();
    assert_eq!(model.add_point(0, 0, 0, 0), 1);
    assert_eq!(model.add_point(1, 1, 1, 0), 2);
    assert_eq!(model.add_line(1, 2), 1);
    assert_eq!(model.get_point_lines(1), vec![1]);
    assert_eq!(model.get_point_lines(2), vec![1]);
}

#[test]
fn three_points_two_lines_deletion_scenario() {
    let mut model = Model::new();
    assert_eq!(model.add_point(0, 0, 0, 0), 1);
    assert_eq!(model.add_point(1, 1, 1, 1), 2);
    assert_eq!(model.add_point(2, 2, 2, 2), 3);
    assert_eq!(model.add_line(1, 2), 1);
    assert_eq!(model.add_line(2, 3), 2);
    model.del_point(1);
    assert_eq!(model.lines.len(), 1);
    assert_eq!(model.points.len(), 2);
    model.del_line(2);
    assert_eq!(model.lines.len(), 0);
    assert_eq!(model.points.len(), 2);
}
