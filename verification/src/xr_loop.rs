use vstd::prelude::*;
use crate::app_state::Phase;

verus! {

/// An event from the XR runtime that the render loop reacts to.
#[derive(Debug, Clone, Copy, PartialEq, Eq, Structural)]
pub enum SessionEvent {
    /// The session is ready to begin.
    Ready,
    /// The session is stopping.
    Stopping,
    /// The session is exiting.
    Exiting,
    /// The session is about to be lost.
    LossPending,
    /// The instance is about to be lost.
    InstanceLossPending,
    /// Any other event.
    Other,
}

/// What the render loop does in response to a session event.
#[derive(Debug, Clone, Copy, PartialEq, Eq, Structural)]
pub enum SessionCommand {
    /// Begin the session.
    Begin,
    /// End the session.
    End,
    /// Ask the user interface to quit, and leave the loop.
    RequestExit,
    /// Leave the loop.
    Leave,
    /// Nothing to do.
    Continue,
}

/// What the render loop does with a frame, by phase.
#[derive(Debug, Clone, Copy, PartialEq, Eq, Structural)]
pub enum FramePlan {
    /// Submit an empty frame.
    Empty,
    /// Track the controllers for tracing, then submit an empty frame.
    Trace,
    /// Render the chaperone.
    Render,
}

/// The command for a session event, and whether the session runs afterwards.
pub open spec fn session_step(event: SessionEvent, running: bool) -> (SessionCommand, bool) {
    match event {
        SessionEvent::Ready => (SessionCommand::Begin, true),
        SessionEvent::Stopping => (SessionCommand::End, false),
        SessionEvent::Exiting | SessionEvent::LossPending => (SessionCommand::RequestExit, running),
        SessionEvent::InstanceLossPending => (SessionCommand::Leave, running),
        SessionEvent::Other => (SessionCommand::Continue, running),
    }
}

/// The session runs after it begins and stops running once it ends; only
/// exiting or losing the session asks the interface to quit.
pub proof fn lemma_session_lifecycle(event: SessionEvent, running: bool)
    ensures
        session_step(event, running).0 == SessionCommand::Begin <==> event == SessionEvent::Ready,
        session_step(event, running).0 == SessionCommand::End <==> event == SessionEvent::Stopping,
        session_step(event, running).0 == SessionCommand::RequestExit <==> (event == SessionEvent::Exiting
            || event == SessionEvent::LossPending),
        session_step(SessionEvent::Ready, running).1,
        !session_step(SessionEvent::Stopping, running).1,
        (event != SessionEvent::Ready && event != SessionEvent::Stopping) ==> session_step(event, running).1
            == running,
{
}

/// Reacts to a session event, tracking whether the session is running.
pub fn on_session_event(event: SessionEvent, running: &mut bool) -> (res: SessionCommand)
    ensures
        (res, *final(running)) == session_step(event, *old(running)),
        event == SessionEvent::Ready ==> res == SessionCommand::Begin && *final(running),
        event == SessionEvent::Stopping ==> res == SessionCommand::End && !*final(running),
        (event == SessionEvent::Exiting || event == SessionEvent::LossPending) ==> res == SessionCommand::RequestExit,
        event == SessionEvent::InstanceLossPending ==> res == SessionCommand::Leave,
        event == SessionEvent::Other ==> res == SessionCommand::Continue,
        (event != SessionEvent::Ready && event != SessionEvent::Stopping) ==> *final(running) == *old(running),
{
    match event {
        SessionEvent::Ready => {
            *running = true;
            SessionCommand::Begin
        },
        SessionEvent::Stopping => {
            *running = false;
            SessionCommand::End
        },
        SessionEvent::Exiting | SessionEvent::LossPending => SessionCommand::RequestExit,
        SessionEvent::InstanceLossPending => SessionCommand::Leave,
        SessionEvent::Other => SessionCommand::Continue,
    }
}

/// What to do with a frame in `phase`: nothing is drawn during setup and
/// review, controllers are tracked while tracing, the chaperone is rendered
/// once active.
pub fn frame_plan(phase: Phase) -> (res: FramePlan)
    ensures
        res == (match phase {
            Phase::Unconfigured | Phase::Review => FramePlan::Empty,
            Phase::Drawing => FramePlan::Trace,
            Phase::Active => FramePlan::Render,
        }),
{
    match phase {
        Phase::Unconfigured | Phase::Review => FramePlan::Empty,
        Phase::Drawing => FramePlan::Trace,
        Phase::Active => FramePlan::Render,
    }
}

} // verus!
