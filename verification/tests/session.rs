use input_gatherer::session::{
    AcquisitionError, Handle, InputSession, SessionAction, SessionEvent, Stage, DEFAULT_SEAT,
};

fn granted(seat: &str) -> SessionEvent {
    SessionEvent::SessionGranted { seat: Some(String::from(seat)) }
}

fn bind(seat: &str) -> SessionAction {
    SessionAction::BindContext { seat: String::from(seat) }
}

fn open_session() -> InputSession {
    let mut session = InputSession::new();
    session.step(SessionEvent::Open);
    session.step(granted("seat1"));
    session.step(SessionEvent::ContextBound);
    session
}

#[test]
fn new_session_holds_nothing() {
    let session = InputSession::new();
    assert_eq!(session.stage(), Stage::Idle);
    assert_eq!(session.seat(), "seat-0");
    assert_eq!(session.failure(), None);
    assert!(!session.is_open());
    assert_eq!(DEFAULT_SEAT, "seat-0");
}

#[test]
fn session_opens_in_two_steps() {
    let mut session = InputSession::new();
    assert_eq!(session.step(SessionEvent::Open), SessionAction::AcquireSession);
    assert_eq!(session.stage(), Stage::AwaitingSession);
    assert_eq!(session.step(granted("seat1")), bind("seat1"));
    assert_eq!(session.stage(), Stage::AwaitingContext);
    assert_eq!(session.seat(), "seat1");
    assert!(!session.is_open());
    assert_eq!(session.step(SessionEvent::ContextBound), SessionAction::Serve);
    assert_eq!(session.stage(), Stage::Open);
    assert!(session.is_open());
    assert_eq!(session.failure(), None);
}

#[test]
fn session_that_names_no_seat_is_on_the_default_seat() {
    let mut session = InputSession::new();
    session.step(SessionEvent::Open);
    assert_eq!(session.step(SessionEvent::SessionGranted { seat: None }), bind("seat-0"));
    assert_eq!(session.seat(), "seat-0");
}

#[test]
fn context_is_released_before_session_and_once() {
    let mut session = open_session();
    assert_eq!(
        session.step(SessionEvent::Close),
        SessionAction::Release { handles: vec![Handle::DeviceContext, Handle::Session] }
    );
    assert_eq!(session.stage(), Stage::Closed);
    assert!(!session.is_open());
    assert_eq!(session.step(SessionEvent::Close), SessionAction::Nothing);
    assert_eq!(session.step(SessionEvent::Close), SessionAction::Nothing);
    assert_eq!(session.failure(), None);
    assert_eq!(session.seat(), "seat1");
}

#[test]
fn refused_session_is_an_acquisition_error() {
    let mut session = InputSession::new();
    session.step(SessionEvent::Open);
    assert_eq!(session.step(SessionEvent::SessionDenied), SessionAction::Nothing);
    assert_eq!(session.stage(), Stage::Closed);
    assert_eq!(session.failure(), Some(AcquisitionError::Session));
    assert_eq!(session.step(SessionEvent::Close), SessionAction::Nothing);
}

#[test]
fn refused_binding_is_an_acquisition_error_and_releases_the_session() {
    let mut session = InputSession::new();
    session.step(SessionEvent::Open);
    session.step(granted("seat9"));
    assert_eq!(
        session.step(SessionEvent::ContextDenied),
        SessionAction::Release { handles: vec![Handle::Session] }
    );
    assert_eq!(session.stage(), Stage::Closed);
    assert_eq!(session.failure(), Some(AcquisitionError::SeatBinding));
    assert_eq!(session.seat(), "seat9");
    assert_eq!(session.step(SessionEvent::Close), SessionAction::Nothing);
}

#[test]
fn close_before_the_context_is_bound_releases_the_session() {
    let mut session = InputSession::new();
    session.step(SessionEvent::Open);
    session.step(granted("seat1"));
    assert_eq!(
        session.step(SessionEvent::Close),
        SessionAction::Release { handles: vec![Handle::Session] }
    );
    assert_eq!(session.failure(), None);
}

#[test]
fn close_with_nothing_held_releases_nothing() {
    let mut idle = InputSession::new();
    assert_eq!(idle.step(SessionEvent::Close), SessionAction::Nothing);
    assert_eq!(idle.stage(), Stage::Closed);

    let mut waiting = InputSession::new();
    waiting.step(SessionEvent::Open);
    assert_eq!(waiting.step(SessionEvent::Close), SessionAction::Nothing);
    assert_eq!(waiting.stage(), Stage::Closed);
}

#[test]
fn refusal_is_not_retried() {
    let mut session = InputSession::new();
    session.step(SessionEvent::Open);
    session.step(SessionEvent::SessionDenied);
    assert_eq!(session.step(SessionEvent::Open), SessionAction::Nothing);
    assert_eq!(session.step(granted("seat1")), SessionAction::Nothing);
    assert_eq!(session.step(SessionEvent::ContextBound), SessionAction::Nothing);
    assert_eq!(session.stage(), Stage::Closed);
    assert_eq!(session.seat(), "seat-0");
    assert_eq!(session.failure(), Some(AcquisitionError::Session));
}

#[test]
fn events_that_are_not_waited_for_change_nothing() {
    let mut session = InputSession::new();
    for event in [
        granted("seat1"),
        SessionEvent::SessionDenied,
        SessionEvent::ContextBound,
        SessionEvent::ContextDenied,
    ] {
        assert_eq!(session.step(event), SessionAction::Nothing);
        assert_eq!(session.stage(), Stage::Idle);
    }
    session.step(SessionEvent::Open);
    for event in [SessionEvent::Open, SessionEvent::ContextBound, SessionEvent::ContextDenied] {
        assert_eq!(session.step(event), SessionAction::Nothing);
        assert_eq!(session.stage(), Stage::AwaitingSession);
    }
    session.step(granted("seat1"));
    for event in [SessionEvent::Open, granted("seat2"), SessionEvent::SessionDenied] {
        assert_eq!(session.step(event), SessionAction::Nothing);
        assert_eq!(session.stage(), Stage::AwaitingContext);
        assert_eq!(session.seat(), "seat1");
    }
    session.step(SessionEvent::ContextBound);
    for event in [
        SessionEvent::Open,
        granted("seat2"),
        SessionEvent::SessionDenied,
        SessionEvent::ContextBound,
        SessionEvent::ContextDenied,
    ] {
        assert_eq!(session.step(event), SessionAction::Nothing);
        assert!(session.is_open());
        assert_eq!(session.failure(), None);
    }
}

#[test]
fn acquisition_errors_name_the_resource() {
    assert_eq!(AcquisitionError::Session.message(), "Failed to initialize the session");
    assert_eq!(
        AcquisitionError::SeatBinding.message(),
        "Failed to bind a device context to the seat"
    );
}
