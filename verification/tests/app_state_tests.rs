use xr_chaperone::app_state::{triggered_trace_point, AppState, Phase, XRState, DOUBLE_CLICK_NANOS};

type Pt = (i32, i32);

const MS: u64 = 1_000_000;

fn drawing_with(points: &[Pt]) -> AppState<Pt> {
    let mut s: AppState<Pt> = AppState::new();
    s.start_tracing();
    for (k, p) in points.iter().enumerate() {
        // Pulls a second apart never count as double pulls.
        s.push_trace_point(*p, (k as u64 + 1) * 1000 * MS, false);
    }
    s
}

#[test]
fn new_state_is_unconfigured_and_starting() {
    let s: AppState<Pt> = AppState::new();
    assert_eq!(s.phase, Phase::Unconfigured);
    assert_eq!(s.xr_state, XRState::Starting);
    assert!(s.trace_points.is_empty());
    assert!(s.polygon.is_empty());
    assert!(!s.xr_exit_requested && !s.ui_exit_requested);
    assert!(!s.monado_available && !s.stage_reset_await);
    assert_eq!(s.last_trigger_time, None);
}

#[test]
fn pulls_append_points() {
    let s = drawing_with(&[(0, 0), (1, 0), (1, 1)]);
    assert_eq!(s.trace_points, vec![(0, 0), (1, 0), (1, 1)]);
    assert_eq!(s.phase, Phase::Drawing);
    assert_eq!(s.last_trigger_time, Some(3000 * MS));
}

#[test]
fn double_pull_finishes_trace_without_adding_point() {
    let mut s = drawing_with(&[(0, 0), (4, 0), (4, 4)]);
    s.push_trace_point((0, 4), 10_000 * MS, false);
    assert_eq!(s.trace_points.len(), 4);
    s.push_trace_point((9, 9), 10_000 * MS + 200 * MS, false);
    assert_eq!(s.phase, Phase::Review);
    assert_eq!(s.polygon, vec![(0, 0), (4, 0), (4, 4), (0, 4)]);
    assert_eq!(s.trace_points, vec![(0, 0), (4, 0), (4, 4), (0, 4)]);
    assert_eq!(s.last_trigger_time, Some(10_200 * MS));
}

#[test]
fn pulls_exactly_the_window_apart_are_not_double() {
    let mut s = drawing_with(&[(0, 0), (4, 0), (4, 4)]);
    s.push_trace_point((0, 4), 10_000 * MS, false);
    s.push_trace_point((1, 4), 10_000 * MS + DOUBLE_CLICK_NANOS, false);
    assert_eq!(s.phase, Phase::Drawing);
    assert_eq!(s.trace_points.len(), 5);
}

#[test]
fn clock_going_backwards_counts_as_double_pull() {
    let mut s = drawing_with(&[(0, 0), (4, 0), (4, 4)]);
    s.push_trace_point((0, 4), 1, false);
    assert_eq!(s.phase, Phase::Review);
    assert_eq!(s.trace_points.len(), 3);
}

#[test]
fn pull_near_start_closes_boundary() {
    let mut s = drawing_with(&[(0, 0), (4, 0), (4, 4)]);
    s.push_trace_point((0, 1), 60_000 * MS, true);
    assert_eq!(s.phase, Phase::Review);
    assert_eq!(s.polygon, vec![(0, 0), (4, 0), (4, 4)]);
    assert_eq!(s.trace_points.len(), 3);
}

#[test]
fn closing_needs_three_points() {
    let mut s = drawing_with(&[(0, 0), (4, 0)]);
    s.push_trace_point((0, 1), 60_000 * MS, true);
    assert_eq!(s.phase, Phase::Drawing);
    assert_eq!(s.trace_points.len(), 3);
    s.push_trace_point((0, 2), 60_000 * MS + MS, false);
    assert_eq!(s.phase, Phase::Review);
}

#[test]
fn near_start_on_empty_trace_appends() {
    let mut s: AppState<Pt> = AppState::new();
    s.start_tracing();
    s.push_trace_point((5, 5), 0, true);
    assert_eq!(s.trace_points, vec![(5, 5)]);
}

#[test]
fn pulls_outside_drawing_only_append() {
    let mut s = drawing_with(&[(0, 0), (4, 0), (4, 4)]);
    s.confirm_polygon();
    assert_eq!(s.phase, Phase::Active);
    s.push_trace_point((7, 7), 4000 * MS, true);
    assert_eq!(s.phase, Phase::Active);
    assert_eq!(s.trace_points.len(), 4);
    assert_eq!(s.polygon.len(), 3);
}

#[test]
fn confirm_polygon_activates_trace() {
    let mut s = drawing_with(&[(0, 0), (4, 0), (4, 4)]);
    assert!(s.confirm_polygon());
    assert_eq!(s.phase, Phase::Active);
    assert_eq!(s.polygon, vec![(0, 0), (4, 0), (4, 4)]);
    let before = s.polygon.clone();
    s.confirm_polygon();
    assert_eq!(s.phase, Phase::Active);
    assert_eq!(s.polygon, before);
}

#[test]
fn confirm_polygon_with_two_points_changes_nothing() {
    let mut s = drawing_with(&[(0, 0), (4, 0)]);
    assert!(!s.confirm_polygon());
    assert_eq!(s.phase, Phase::Drawing);
    assert!(s.polygon.is_empty());
}

#[test]
fn stop_tracing_moves_to_review() {
    let mut s = drawing_with(&[(0, 0), (4, 0)]);
    s.stop_tracing();
    assert_eq!(s.phase, Phase::Drawing);
    s.push_trace_point((4, 4), 9000 * MS, false);
    s.stop_tracing();
    assert_eq!(s.phase, Phase::Review);
    assert_eq!(s.polygon, vec![(0, 0), (4, 0), (4, 4)]);
}

#[test]
fn reset_trace_returns_to_setup() {
    let mut s = drawing_with(&[(0, 0), (4, 0), (4, 4)]);
    s.confirm_polygon();
    s.reset_trace();
    assert_eq!(s.phase, Phase::Unconfigured);
    assert!(s.trace_points.is_empty());
    assert_eq!(s.polygon.len(), 3);
    s.confirm_polygon();
    assert_eq!(s.phase, Phase::Unconfigured);
}

#[test]
fn start_tracing_clears_trace() {
    let mut s = drawing_with(&[(0, 0), (4, 0), (4, 4)]);
    s.start_tracing();
    assert_eq!(s.phase, Phase::Drawing);
    assert!(s.trace_points.is_empty());
}

#[test]
fn edit_then_confirm_keeps_polygon() {
    let mut s = drawing_with(&[(0, 0), (4, 0), (4, 4)]);
    s.confirm_polygon();
    s.edit_boundary();
    assert_eq!(s.phase, Phase::Review);
    assert_eq!(s.trace_points, s.polygon);
    s.confirm_polygon();
    assert_eq!(s.phase, Phase::Active);
    assert_eq!(s.polygon, vec![(0, 0), (4, 0), (4, 4)]);
}

#[test]
fn cancel_edit_restores_previous_polygon() {
    let mut s = drawing_with(&[(0, 0), (4, 0), (4, 4)]);
    s.stop_tracing();
    s.cancel_edit(Some(vec![(1, 1), (2, 1), (2, 2), (1, 2)]));
    assert_eq!(s.phase, Phase::Active);
    assert_eq!(s.polygon, vec![(1, 1), (2, 1), (2, 2), (1, 2)]);
    let mut t = drawing_with(&[(0, 0), (4, 0), (4, 4)]);
    t.stop_tracing();
    t.cancel_edit(None);
    assert_eq!(t.phase, Phase::Active);
    assert_eq!(t.polygon, vec![(0, 0), (4, 0), (4, 4)]);
}

#[test]
fn move_vertex_in_and_out_of_range() {
    let mut s = drawing_with(&[(0, 0), (4, 0), (4, 4)]);
    s.move_vertex(1, (5, 0));
    assert_eq!(s.trace_points, vec![(0, 0), (5, 0), (4, 4)]);
    s.move_vertex(3, (9, 9));
    assert_eq!(s.trace_points, vec![(0, 0), (5, 0), (4, 4)]);
}

#[test]
fn insert_vertex_positions() {
    let mut s = drawing_with(&[(0, 0), (4, 0), (4, 4)]);
    s.insert_vertex(0, (2, 0));
    assert_eq!(s.trace_points, vec![(0, 0), (2, 0), (4, 0), (4, 4)]);
    s.insert_vertex(3, (2, 2));
    assert_eq!(s.trace_points, vec![(0, 0), (2, 0), (4, 0), (4, 4), (2, 2)]);
    s.insert_vertex(usize::MAX, (1, 1));
    assert_eq!(s.trace_points.len(), 6);
    assert_eq!(s.trace_points[5], (1, 1));
}

#[test]
fn delete_vertex_keeps_three_points() {
    let mut s = drawing_with(&[(0, 0), (4, 0), (4, 4), (0, 4)]);
    s.delete_vertex(2);
    assert_eq!(s.trace_points, vec![(0, 0), (4, 0), (0, 4)]);
    s.delete_vertex(0);
    assert_eq!(s.trace_points, vec![(0, 0), (4, 0), (0, 4)]);
}

#[test]
fn insert_then_delete_restores_trace() {
    let mut s = drawing_with(&[(0, 0), (4, 0), (4, 4)]);
    let before = s.trace_points.clone();
    s.insert_vertex(1, (4, 2));
    s.delete_vertex(2);
    assert_eq!(s.trace_points, before);
}

#[test]
fn triggered_point_prefers_pulled_controller() {
    let mut was = false;
    assert_eq!(triggered_trace_point(true, false, &mut was, Some(1), Some(2)), Some(1));
    assert!(was);
    let mut was = false;
    assert_eq!(triggered_trace_point(false, true, &mut was, Some(1), Some(2)), Some(2));
    let mut was = false;
    assert_eq!(triggered_trace_point(true, false, &mut was, None, Some(2)), Some(2));
    let mut was = false;
    assert_eq!(triggered_trace_point(false, true, &mut was, Some(1), None::<i32>), Some(1));
    let mut was = false;
    assert_eq!(triggered_trace_point(true, true, &mut was, None::<i32>, None), None);
}

#[test]
fn held_trigger_records_once() {
    let mut was = false;
    assert_eq!(triggered_trace_point(true, false, &mut was, Some(1), Some(2)), Some(1));
    assert_eq!(triggered_trace_point(true, false, &mut was, Some(3), Some(4)), None);
    assert_eq!(triggered_trace_point(false, false, &mut was, Some(3), Some(4)), None);
    assert!(!was);
    assert_eq!(triggered_trace_point(false, true, &mut was, Some(3), Some(4)), Some(4));
}

#[test]
fn xr_failure_is_reported_unless_running() {
    let mut s: AppState<Pt> = AppState::new();
    s.record_xr_failure("no runtime".to_string());
    assert_eq!(s.xr_state, XRState::Error("no runtime".to_string()));
    assert!(s.xr_exit_requested);
    let mut t: AppState<Pt> = AppState::new();
    t.xr_state = XRState::Running;
    t.record_xr_failure("lost".to_string());
    assert_eq!(t.xr_state, XRState::Running);
    assert!(t.xr_exit_requested);
}

#[test]
fn shown_boundary_always_has_three_points() {
    let mut s = drawing_with(&[(0, 0), (4, 0), (4, 4), (0, 4)]);
    let closed = |s: &AppState<Pt>| {
        !(s.phase == Phase::Review || s.phase == Phase::Active) || s.polygon.len() >= 3
    };
    s.stop_tracing();
    assert!(closed(&s));
    s.delete_vertex(0);
    s.delete_vertex(0);
    assert!(closed(&s));
    s.confirm_polygon();
    assert!(closed(&s));
    s.edit_boundary();
    s.insert_vertex(1, (9, 9));
    s.move_vertex(0, (8, 8));
    assert!(closed(&s));
    s.push_trace_point((1, 1), 1, true);
    assert!(closed(&s));
    s.reset_trace();
    s.start_tracing();
    s.push_trace_point((1, 1), 1, false);
    s.stop_tracing();
    assert!(closed(&s));
    s.cancel_edit(None);
    assert!(closed(&s));
}
