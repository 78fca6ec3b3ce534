use xr_chaperone::app_state::Phase;
use xr_chaperone::config::{boundary_polygon, validate_boundary};
use xr_chaperone::xr_loop::{frame_plan, on_session_event, FramePlan, SessionCommand, SessionEvent};

#[test]
fn short_boundaries_are_discarded() {
    let mut b = vec![(0, 0), (1, 1)];
    validate_boundary(&mut b);
    assert!(b.is_empty());
    let mut c = vec![(0, 0), (1, 0), (1, 1)];
    validate_boundary(&mut c);
    assert_eq!(c, vec![(0, 0), (1, 0), (1, 1)]);
    let mut e: Vec<(i32, i32)> = vec![];
    validate_boundary(&mut e);
    assert!(e.is_empty());
}

#[test]
fn polygon_falls_back_when_short() {
    let fallback = vec![(-1, -1), (1, -1), (1, 1), (-1, 1)];
    assert_eq!(boundary_polygon(vec![(0, 0)], fallback.clone()), fallback);
    assert_eq!(boundary_polygon(vec![(0, 0), (2, 0), (2, 2)], fallback.clone()), vec![(0, 0), (2, 0), (2, 2)]);
}

#[test]
fn session_events() {
    let mut running = false;
    assert_eq!(on_session_event(SessionEvent::Ready, &mut running), SessionCommand::Begin);
    assert!(running);
    assert_eq!(on_session_event(SessionEvent::Other, &mut running), SessionCommand::Continue);
    assert!(running);
    assert_eq!(on_session_event(SessionEvent::Exiting, &mut running), SessionCommand::RequestExit);
    assert_eq!(on_session_event(SessionEvent::LossPending, &mut running), SessionCommand::RequestExit);
    assert_eq!(on_session_event(SessionEvent::InstanceLossPending, &mut running), SessionCommand::Leave);
    assert_eq!(on_session_event(SessionEvent::Stopping, &mut running), SessionCommand::End);
    assert!(!running);
}

#[test]
fn frame_plans() {
    assert_eq!(frame_plan(Phase::Unconfigured), FramePlan::Empty);
    assert_eq!(frame_plan(Phase::Review), FramePlan::Empty);
    assert_eq!(frame_plan(Phase::Drawing), FramePlan::Trace);
    assert_eq!(frame_plan(Phase::Active), FramePlan::Render);
}
