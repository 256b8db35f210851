//! The input session: which privileged handles are held, and in what order
//! they are acquired and given back.
//!
//! Opening a session takes two steps that the caller performs: it acquires
//! the privileged session, which names the seat, and it binds a device
//! context to that seat. Either step can be refused, and a refusal is final.
//! The session decides what is to be done next and keeps account of the
//! handles held, so that every way out gives them back, last acquired first.
//! A caller opens one session and no second one beside it.
use vstd::prelude::*;

verus! {

/// The seat of a session that names none.
pub const DEFAULT_SEAT: &'static str = "seat-0";

/// A privileged handle that an input session holds.
#[derive(Clone, Copy, Debug, PartialEq, Eq, Structural)]
pub enum Handle {
    /// The privileged session.
    Session,
    /// The device context bound to the seat.
    DeviceContext,
}

/// The resource that could not be acquired.
#[derive(Clone, Copy, Debug, PartialEq, Eq, Structural)]
pub enum AcquisitionError {
    /// The privileged session could not be established.
    Session,
    /// No device context could be bound to the seat.
    SeatBinding,
}

impl AcquisitionError {
    /// What to tell the operator: which resource could not be acquired.
    pub fn message(&self) -> (message: &'static str)
        ensures
            message@ == match *self {
                AcquisitionError::Session => "Failed to initialize the session"@,
                AcquisitionError::SeatBinding => "Failed to bind a device context to the seat"@,
            },
    {
        match self {
            AcquisitionError::Session => "Failed to initialize the session",
            AcquisitionError::SeatBinding => "Failed to bind a device context to the seat",
        }
    }
}

/// How far the opening of a session has come.
#[derive(Clone, Copy, Debug, PartialEq, Eq, Structural)]
pub enum Stage {
    /// Nothing was asked for yet.
    Idle,
    /// The privileged session was asked for.
    AwaitingSession,
    /// The session is held; the device context was asked for.
    AwaitingContext,
    /// Session and device context are held: events can be fetched.
    Open,
    /// Nothing is held any more, and nothing will be.
    Closed,
}

/// What happened outside, as far as the session has to know.
#[derive(Debug, PartialEq, Eq)]
pub enum SessionEvent {
    /// The caller wants the session opened.
    Open,
    /// The privileged session was established; `seat` is the seat it names,
    /// if it names one.
    SessionGranted { seat: Option<String> },
    /// The privileged session was refused.
    SessionDenied,
    /// The device context was bound to the seat.
    ContextBound,
    /// The device context could not be bound to the seat.
    ContextDenied,
    /// The caller wants everything given back.
    Close,
}

/// What the caller is to do next.
#[derive(Debug, PartialEq, Eq)]
pub enum SessionAction {
    /// Acquire the privileged session.
    AcquireSession,
    /// Bind a device context to `seat`.
    BindContext { seat: String },
    /// Fetch events: the session is open.
    Serve,
    /// Give `handles` back, in this order.
    Release { handles: Vec<Handle> },
    /// Nothing.
    Nothing,
}

/// An event as a mathematical value.
pub enum EventModel {
    Open,
    SessionGranted { seat: Option<Seq<char>> },
    SessionDenied,
    ContextBound,
    ContextDenied,
    Close,
}

/// An action as a mathematical value.
pub enum ActionModel {
    AcquireSession,
    BindContext { seat: Seq<char> },
    Serve,
    Release { handles: Seq<Handle> },
    Nothing,
}

impl View for SessionEvent {
    type V = EventModel;

    open spec fn view(&self) -> EventModel {
        match *self {
            SessionEvent::Open => EventModel::Open,
            SessionEvent::SessionGranted { seat } => EventModel::SessionGranted {
                seat: seat.deep_view(),
            },
            SessionEvent::SessionDenied => EventModel::SessionDenied,
            SessionEvent::ContextBound => EventModel::ContextBound,
            SessionEvent::ContextDenied => EventModel::ContextDenied,
            SessionEvent::Close => EventModel::Close,
        }
    }
}

impl View for SessionAction {
    type V = ActionModel;

    open spec fn view(&self) -> ActionModel {
        match *self {
            SessionAction::AcquireSession => ActionModel::AcquireSession,
            SessionAction::BindContext { seat } => ActionModel::BindContext { seat: seat@ },
            SessionAction::Serve => ActionModel::Serve,
            SessionAction::Release { handles } => ActionModel::Release { handles: handles@ },
            SessionAction::Nothing => ActionModel::Nothing,
        }
    }
}

/// An input session as a mathematical value.
pub struct SessionModel {
    /// How far the opening has come.
    pub stage: Stage,
    /// The seat of the session.
    pub seat: Seq<char>,
    /// The refusal that closed the session, if one did.
    pub failure: Option<AcquisitionError>,
}

impl SessionModel {
    /// A refusal is on record only once the session is closed.
    pub open spec fn well_formed(self) -> bool {
        self.failure is Some ==> self.stage == Stage::Closed
    }
}

/// The handles held at `stage`, in the order of their acquisition.
pub open spec fn held(stage: Stage) -> Seq<Handle> {
    match stage {
        Stage::AwaitingContext => seq![Handle::Session],
        Stage::Open => seq![Handle::Session, Handle::DeviceContext],
        _ => Seq::empty(),
    }
}

/// The order in which the handles held at `stage` are given back: the
/// reverse of their acquisition.
pub open spec fn release_order(stage: Stage) -> Seq<Handle> {
    held(stage).reverse()
}

/// The seat of a session: the one it names, the default where it names
/// none.
pub open spec fn seat_or_default(named: Option<Seq<char>>) -> Seq<char> {
    match named {
        Some(seat) => seat,
        None => DEFAULT_SEAT@,
    }
}

/// What is to be done to close a session at `stage`.
pub open spec fn closing_action(stage: Stage) -> ActionModel {
    if held(stage).len() > 0 {
        ActionModel::Release { handles: release_order(stage) }
    } else {
        ActionModel::Nothing
    }
}

/// The session after `event`, and what the caller is to do next. An event
/// that the stage does not wait for changes nothing.
pub open spec fn transition(session: SessionModel, event: EventModel) -> (
    SessionModel,
    ActionModel,
) {
    match (session.stage, event) {
        (Stage::Idle, EventModel::Open) => (
            SessionModel { stage: Stage::AwaitingSession, ..session },
            ActionModel::AcquireSession,
        ),
        (Stage::AwaitingSession, EventModel::SessionGranted { seat }) => (
            SessionModel { stage: Stage::AwaitingContext, seat: seat_or_default(seat), ..session },
            ActionModel::BindContext { seat: seat_or_default(seat) },
        ),
        (Stage::AwaitingSession, EventModel::SessionDenied) => (
            SessionModel {
                stage: Stage::Closed,
                failure: Some(AcquisitionError::Session),
                ..session
            },
            ActionModel::Nothing,
        ),
        (Stage::AwaitingContext, EventModel::ContextBound) => (
            SessionModel { stage: Stage::Open, ..session },
            ActionModel::Serve,
        ),
        (Stage::AwaitingContext, EventModel::ContextDenied) => (
            SessionModel {
                stage: Stage::Closed,
                failure: Some(AcquisitionError::SeatBinding),
                ..session
            },
            closing_action(session.stage),
        ),
        (_, EventModel::Close) => (
            SessionModel { stage: Stage::Closed, ..session },
            closing_action(session.stage),
        ),
        _ => (session, ActionModel::Nothing),
    }
}

/// An input session.
pub struct InputSession {
    stage: Stage,
    seat: String,
    failure: Option<AcquisitionError>,
}

impl View for InputSession {
    type V = SessionModel;

    closed spec fn view(&self) -> SessionModel {
        SessionModel { stage: self.stage, seat: self.seat@, failure: self.failure }
    }
}

/// The handles to give back at `stage`, in the order of their release.
fn handles_to_release(stage: Stage) -> (handles: Vec<Handle>)
    ensures
        handles@ == release_order(stage),
{
    let mut handles: Vec<Handle> = Vec::new();
    match stage {
        Stage::AwaitingContext => {
            handles.push(Handle::Session);
        },
        Stage::Open => {
            handles.push(Handle::DeviceContext);
            handles.push(Handle::Session);
        },
        _ => {},
    }
    assert(handles@ =~= release_order(stage));
    handles
}

impl InputSession {
    #[verifier::type_invariant]
    spec fn well_formed(self) -> bool {
        self@.well_formed()
    }

    /// A session for which nothing was asked yet; its seat is the default
    /// seat until the privileged session names one.
    pub fn new() -> (session: InputSession)
        ensures
            session@ == (SessionModel {
                stage: Stage::Idle,
                seat: DEFAULT_SEAT@,
                failure: None,
            }),
    {
        InputSession { stage: Stage::Idle, seat: DEFAULT_SEAT.to_owned(), failure: None }
    }

    /// How far the opening has come.
    pub fn stage(&self) -> (stage: Stage)
        ensures
            stage == self@.stage,
            self@.well_formed(),
    {
        proof {
            use_type_invariant(self);
        }
        self.stage
    }

    /// The seat of the session.
    pub fn seat(&self) -> (seat: &str)
        ensures
            seat@ == self@.seat,
    {
        self.seat.as_str()
    }

    /// The refusal that closed the session, if one did.
    pub fn failure(&self) -> (failure: Option<AcquisitionError>)
        ensures
            failure == self@.failure,
            self@.well_formed(),
    {
        proof {
            use_type_invariant(self);
        }
        self.failure
    }

    /// Tests whether session and device context are both held.
    pub fn is_open(&self) -> (open: bool)
        ensures
            open == (self@.stage == Stage::Open),
    {
        match self.stage {
            Stage::Open => true,
            _ => false,
        }
    }

    /// Takes note of `event` and says what the caller is to do next.
    pub fn step(&mut self, event: SessionEvent) -> (action: SessionAction)
        ensures
            (final(self)@, action@) == transition(old(self)@, event@),
            final(self)@.well_formed(),
    {
        proof {
            use_type_invariant(&*self);
        }
        match event {
            SessionEvent::Close => {
                let handles = handles_to_release(self.stage);
                self.stage = Stage::Closed;
                if handles.len() > 0 {
                    SessionAction::Release { handles }
                } else {
                    SessionAction::Nothing
                }
            },
            SessionEvent::Open => match self.stage {
                Stage::Idle => {
                    self.stage = Stage::AwaitingSession;
                    SessionAction::AcquireSession
                },
                _ => SessionAction::Nothing,
            },
            SessionEvent::SessionGranted { seat } => match self.stage {
                Stage::AwaitingSession => {
                    let seat = match seat {
                        Some(named) => named,
                        None => DEFAULT_SEAT.to_owned(),
                    };
                    self.stage = Stage::AwaitingContext;
                    self.seat = seat.clone();
                    SessionAction::BindContext { seat }
                },
                _ => SessionAction::Nothing,
            },
            SessionEvent::SessionDenied => match self.stage {
                Stage::AwaitingSession => {
                    self.stage = Stage::Closed;
                    self.failure = Some(AcquisitionError::Session);
                    SessionAction::Nothing
                },
                _ => SessionAction::Nothing,
            },
            SessionEvent::ContextBound => match self.stage {
                Stage::AwaitingContext => {
                    self.stage = Stage::Open;
                    SessionAction::Serve
                },
                _ => SessionAction::Nothing,
            },
            SessionEvent::ContextDenied => match self.stage {
                Stage::AwaitingContext => {
                    let handles = handles_to_release(self.stage);
                    self.stage = Stage::Closed;
                    self.failure = Some(AcquisitionError::SeatBinding);
                    SessionAction::Release { handles }
                },
                _ => SessionAction::Nothing,
            },
        }
    }
}

/// The actions that a run of events calls for, one for each event.
pub open spec fn actions_of(session: SessionModel, events: Seq<EventModel>) -> Seq<ActionModel>
    decreases events.len(),
{
    if events.len() == 0 {
        Seq::empty()
    } else {
        let (next, action) = transition(session, events.first());
        seq![action] + actions_of(next, events.drop_first())
    }
}

/// The session after a run of events.
pub open spec fn session_after(session: SessionModel, events: Seq<EventModel>) -> SessionModel
    decreases events.len(),
{
    if events.len() == 0 {
        session
    } else {
        session_after(transition(session, events.first()).0, events.drop_first())
    }
}

/// How many of `actions` give handles back.
pub open spec fn releases(actions: Seq<ActionModel>) -> nat
    decreases actions.len(),
{
    if actions.len() == 0 {
        0
    } else if actions.first() is Release {
        1 + releases(actions.drop_first())
    } else {
        releases(actions.drop_first())
    }
}

/// Handles are acquired one at a time, the session before the device
/// context, and the caller is told to fetch events only while both are held.
pub proof fn lemma_acquisition_order(session: SessionModel, event: EventModel)
    ensures
        ({
            let (next, action) = transition(session, event);
            &&& action is Serve ==> held(next.stage) == seq![Handle::Session, Handle::DeviceContext]
            &&& held(session.stage).len() < held(next.stage).len() ==> held(next.stage) == held(
                session.stage,
            ).push(held(next.stage).last())
            &&& held(next.stage).len() > 0 ==> held(next.stage).first() == Handle::Session
        }),
{
    let (next, action) = transition(session, event);
    if held(session.stage).len() < held(next.stage).len() {
        assert(held(next.stage) =~= held(session.stage).push(held(next.stage).last()));
    }
}

/// The seat is named once: by the privileged session when it is granted,
/// with the default seat standing in where it names none; from then on the
/// seat stays what it is.
pub proof fn lemma_seat_is_named_once(session: SessionModel, event: EventModel)
    ensures
        ({
            let next = transition(session, event).0;
            &&& session.stage == Stage::AwaitingSession && event is SessionGranted ==> next.seat
                == seat_or_default(event->seat)
            &&& !(session.stage == Stage::AwaitingSession && event is SessionGranted)
                ==> next.seat == session.seat
        }),
{
}

/// Teardown is the reverse of acquisition: whenever handles stop being held,
/// the caller is told to give back exactly the handles held, the last
/// acquired first, so the device context before the session; and whatever is
/// given back is held no longer.
pub proof fn lemma_release_reverses_acquisition(session: SessionModel, event: EventModel)
    ensures
        ({
            let (next, action) = transition(session, event);
            &&& action is Release <==> held(next.stage).len() < held(session.stage).len()
            &&& action is Release ==> action->handles == held(session.stage).reverse()
                && held(next.stage).len() == 0 && next.stage == Stage::Closed
            &&& session.stage == Stage::Open && action is Release ==> action->handles
                == seq![Handle::DeviceContext, Handle::Session]
        }),
{
    assert(held(Stage::Open).reverse() =~= seq![Handle::DeviceContext, Handle::Session]);
    assert(held(Stage::AwaitingContext).reverse() =~= seq![Handle::Session]);
}

/// Every event leaves a well-formed session well-formed.
pub proof fn lemma_well_formed_is_kept(session: SessionModel, event: EventModel)
    requires
        session.well_formed(),
    ensures
        transition(session, event).0.well_formed(),
{
}

/// A refusal is final and is told as what it was: a session fails exactly
/// when the privileged session or the seat binding is refused while it is
/// waited for, it is closed from then on, and a closed session stays as it
/// is and asks for nothing.
pub proof fn lemma_refusal_is_final(session: SessionModel, event: EventModel)
    requires
        session.well_formed(),
    ensures
        ({
            let (next, action) = transition(session, event);
            &&& next.failure == if session.stage == Stage::AwaitingSession && event
                is SessionDenied {
                Some(AcquisitionError::Session)
            } else if session.stage == Stage::AwaitingContext && event is ContextDenied {
                Some(AcquisitionError::SeatBinding)
            } else {
                session.failure
            }
            &&& next.failure is Some ==> next.stage == Stage::Closed
            &&& session.stage == Stage::Closed ==> next == session && action is Nothing
        }),
{
}

/// Every run of events gives handles back at most once, and a closed session
/// never does.
pub proof fn lemma_released_at_most_once(session: SessionModel, events: Seq<EventModel>)
    ensures
        releases(actions_of(session, events)) <= 1,
        session.stage == Stage::Closed ==> releases(actions_of(session, events)) == 0,
        session_after(session, events).stage == Stage::Closed || releases(
            actions_of(session, events),
        ) == 0,
    decreases events.len(),
{
    if events.len() > 0 {
        let (next, action) = transition(session, events.first());
        let rest = actions_of(next, events.drop_first());
        lemma_released_at_most_once(next, events.drop_first());
        lemma_release_reverses_acquisition(session, events.first());
        if next.stage == Stage::Closed {
            lemma_closed_stays_closed(next, events.drop_first());
        }
        assert((seq![action] + rest).drop_first() =~= rest);
    }
}

/// A closed session stays closed whatever comes.
pub proof fn lemma_closed_stays_closed(session: SessionModel, events: Seq<EventModel>)
    requires
        session.stage == Stage::Closed,
    ensures
        session_after(session, events) == session,
    decreases events.len(),
{
    if events.len() > 0 {
        lemma_closed_stays_closed(session, events.drop_first());
    }
}

/// A session that holds handles gives them back exactly once in every run
/// of events in which the caller asks for the close.
pub proof fn lemma_released_exactly_once(session: SessionModel, events: Seq<EventModel>)
    requires
        held(session.stage).len() > 0,
        events.contains(EventModel::Close),
    ensures
        releases(actions_of(session, events)) == 1,
        session_after(session, events).stage == Stage::Closed,
    decreases events.len(),
{
    let (next, action) = transition(session, events.first());
    let rest = actions_of(next, events.drop_first());
    assert((seq![action] + rest).drop_first() =~= rest);
    if action is Release {
        lemma_released_at_most_once(next, events.drop_first());
        lemma_closed_stays_closed(next, events.drop_first());
    } else {
        let at = choose|i: int| 0 <= i < events.len() && events[i] == EventModel::Close;
        assert(at > 0);
        assert(events.drop_first()[at - 1] == EventModel::Close);
        lemma_released_exactly_once(next, events.drop_first());
    }
}

/// A run of events calls for one action for each event.
pub proof fn lemma_one_action_for_each_event(session: SessionModel, events: Seq<EventModel>)
    ensures
        actions_of(session, events).len() == events.len(),
    decreases events.len(),
{
    if events.len() > 0 {
        lemma_one_action_for_each_event(
            transition(session, events.first()).0,
            events.drop_first(),
        );
    }
}

/// A closed session asks for nothing, whatever comes.
pub proof fn lemma_closed_session_asks_for_nothing(
    session: SessionModel,
    events: Seq<EventModel>,
    i: int,
)
    requires
        session.stage == Stage::Closed,
        0 <= i < events.len(),
    ensures
        actions_of(session, events).len() == events.len(),
        actions_of(session, events)[i] is Nothing,
    decreases events.len(),
{
    lemma_one_action_for_each_event(session, events);
    if i > 0 {
        lemma_closed_session_asks_for_nothing(session, events.drop_first(), i - 1);
    }
}

/// The teardown of an open session: the first request for the close is
/// answered by the release of the device context and then of the session,
/// and no other event of the run is answered by anything.
pub proof fn lemma_teardown_of_open_session(
    session: SessionModel,
    events: Seq<EventModel>,
    close: int,
    i: int,
)
    requires
        session.stage == Stage::Open,
        0 <= close < events.len(),
        events[close] is Close,
        forall|j: int| 0 <= j < close ==> !(#[trigger] events[j] is Close),
        0 <= i < events.len(),
    ensures
        actions_of(session, events).len() == events.len(),
        i == close ==> actions_of(session, events)[i] == (ActionModel::Release {
            handles: seq![Handle::DeviceContext, Handle::Session],
        }),
        i != close ==> actions_of(session, events)[i] is Nothing,
    decreases events.len(),
{
    let (next, action) = transition(session, events.first());
    let rest = events.drop_first();
    lemma_one_action_for_each_event(session, events);
    lemma_release_reverses_acquisition(session, events.first());
    if close == 0 {
        if i > 0 {
            lemma_closed_session_asks_for_nothing(next, rest, i - 1);
        }
    } else {
        assert(!(events[0] is Close));
        if i > 0 {
            assert forall|j: int| 0 <= j < close - 1 implies !(#[trigger] rest[j] is Close) by {
                assert(rest[j] == events[j + 1]);
            }
            lemma_teardown_of_open_session(next, rest, close - 1, i - 1);
        }
    }
}

} // verus!
