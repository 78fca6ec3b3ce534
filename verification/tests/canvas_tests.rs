use xr_chaperone::app_state::Phase;
use xr_chaperone::canvas::{
    canvas_action, canvas_mode_for_phase, first_hit_index, pointer_style, CanvasAction, CanvasMode,
    PointerEvent, PointerStyle,
};

const EDIT: CanvasMode = CanvasMode::FittedEditable;

#[test]
fn canvas_per_phase() {
    assert_eq!(canvas_mode_for_phase(Phase::Unconfigured), None);
    assert_eq!(canvas_mode_for_phase(Phase::Drawing), Some(CanvasMode::Fixed { closed: false }));
    assert_eq!(canvas_mode_for_phase(Phase::Review), Some(CanvasMode::FittedEditable));
    assert_eq!(canvas_mode_for_phase(Phase::Active), Some(CanvasMode::Fitted { closed: true }));
    assert!(EDIT.is_editable());
    assert!(!CanvasMode::Fitted { closed: true }.is_editable());
}

#[test]
fn left_press_on_vertex_starts_drag() {
    let mut dragging = None;
    let a = canvas_action(EDIT, PointerEvent::LeftPressed, &mut dragging, &[false, true, true], &[true, false, false]);
    assert_eq!(a, Some(CanvasAction::DragStart(1)));
    assert_eq!(dragging, Some(1));
}

#[test]
fn left_press_on_midpoint_inserts() {
    let mut dragging = None;
    let a = canvas_action(EDIT, PointerEvent::LeftPressed, &mut dragging, &[false, false, false], &[false, false, true]);
    assert_eq!(a, Some(CanvasAction::InsertVertex(2)));
    assert_eq!(dragging, None);
    let b = canvas_action(EDIT, PointerEvent::LeftPressed, &mut dragging, &[false; 3], &[false; 3]);
    assert_eq!(b, None);
}

#[test]
fn right_press_deletes() {
    let mut dragging = None;
    let a = canvas_action(EDIT, PointerEvent::RightPressed, &mut dragging, &[false, false, true], &[true, true, true]);
    assert_eq!(a, Some(CanvasAction::DeleteVertex(2)));
    assert_eq!(canvas_action(EDIT, PointerEvent::RightPressed, &mut dragging, &[false; 3], &[true; 3]), None);
}

#[test]
fn drag_moves_and_ends() {
    let mut dragging = Some(0);
    assert_eq!(canvas_action(EDIT, PointerEvent::Moved, &mut dragging, &[], &[]), Some(CanvasAction::DragMove));
    assert_eq!(canvas_action(EDIT, PointerEvent::LeftReleased, &mut dragging, &[], &[]), Some(CanvasAction::DragEnd));
    assert_eq!(dragging, None);
    assert_eq!(canvas_action(EDIT, PointerEvent::Moved, &mut dragging, &[], &[]), None);
    assert_eq!(canvas_action(EDIT, PointerEvent::CursorLeft, &mut dragging, &[], &[]), None);
    let mut d2 = Some(3);
    assert_eq!(canvas_action(EDIT, PointerEvent::CursorLeft, &mut d2, &[], &[]), Some(CanvasAction::DragEnd));
    assert_eq!(d2, None);
    assert_eq!(canvas_action(EDIT, PointerEvent::Other, &mut d2, &[true], &[true]), None);
}

#[test]
fn fixed_canvas_ignores_pointer() {
    let mut dragging = Some(2);
    let a = canvas_action(CanvasMode::Fixed { closed: false }, PointerEvent::LeftReleased, &mut dragging, &[true], &[true]);
    assert_eq!(a, None);
    assert_eq!(dragging, Some(2));
}

#[test]
fn pointer_styles() {
    assert_eq!(pointer_style(CanvasMode::Fitted { closed: true }, true, &[true]), PointerStyle::Idle);
    assert_eq!(pointer_style(EDIT, true, &[false]), PointerStyle::Grabbing);
    assert_eq!(pointer_style(EDIT, false, &[false, true]), PointerStyle::Grab);
    assert_eq!(pointer_style(EDIT, false, &[false, false]), PointerStyle::Idle);
    assert_eq!(first_hit_index(&[false, true, true]), Some(1));
    assert_eq!(first_hit_index(&[]), None);
}
