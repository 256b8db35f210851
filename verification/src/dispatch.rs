//! The event dispatch loop.
//!
//! The loop polls: in every round the caller fetches the events that are
//! new, hands them to the loop, and gives every delivery to its handler, one
//! after the other in the order of arrival. Between two rounds the loop takes
//! note of what it is told: that the end is asked for, how much time has gone
//! by, or that fetching failed. Any of these can stop the loop. A stop never
//! interrupts a round; it prevents the next one, and it is final.
use crate::decoder::KeystrokeDecoder;
use crate::event::{route_all, routed, Delivery, DeliveryModel, InputEvent};
use vstd::prelude::*;

verus! {

/// Why a loop stopped.
#[derive(Clone, Copy, Debug, PartialEq, Eq, Structural)]
pub enum StopReason {
    /// The handler, or whoever else may, asked for the end.
    Cancelled,
    /// The deadline was reached.
    DeadlineElapsed,
    /// Fetching new events failed.
    DispatchFailed,
}

/// What a loop is told between two rounds.
#[derive(Clone, Copy, Debug, PartialEq, Eq, Structural)]
pub enum Signal {
    /// The end is asked for.
    Cancel,
    /// So many whole seconds have gone by since the loop started.
    Elapsed { seconds: u64 },
    /// Fetching new events failed.
    DispatchFailed,
}

/// A dispatch loop as a mathematical value.
pub struct LoopModel {
    /// The number of seconds after which the loop stops, if it has a
    /// deadline.
    pub deadline: Option<u64>,
    /// Why the loop stopped, once it has.
    pub stopped: Option<StopReason>,
}

impl LoopModel {
    /// The loop has not stopped.
    pub open spec fn running(self) -> bool {
        self.stopped is None
    }

    /// Whether `signal` stops a running loop, and why.
    pub open spec fn stop_on(self, signal: Signal) -> Option<StopReason> {
        match signal {
            Signal::Cancel => Some(StopReason::Cancelled),
            Signal::Elapsed { seconds } => match self.deadline {
                Some(deadline) => if seconds >= deadline {
                    Some(StopReason::DeadlineElapsed)
                } else {
                    None
                },
                None => None,
            },
            Signal::DispatchFailed => Some(StopReason::DispatchFailed),
        }
    }

    /// The loop after `signal`. A stopped loop stays as it is.
    pub open spec fn after(self, signal: Signal) -> LoopModel {
        if self.running() {
            LoopModel { stopped: self.stop_on(signal), ..self }
        } else {
            self
        }
    }

    /// The loop after `signals`, taken in order.
    pub open spec fn after_all(self, signals: Seq<Signal>) -> LoopModel
        decreases signals.len(),
    {
        if signals.len() == 0 {
            self
        } else {
            self.after(signals.first()).after_all(signals.drop_first())
        }
    }

    /// What the handler receives of `events`: while the loop runs, one
    /// delivery for each event, in the order of arrival; nothing once it has
    /// stopped.
    pub open spec fn dispatched<P>(
        self,
        decoder: KeystrokeDecoder,
        events: Seq<InputEvent<P>>,
    ) -> Seq<DeliveryModel<P>> {
        if self.running() {
            events.map_values(|event: InputEvent<P>| routed(decoder, event))
        } else {
            Seq::empty()
        }
    }
}

/// A dispatch loop.
pub struct DispatchLoop {
    deadline: Option<u64>,
    stopped: Option<StopReason>,
}

impl View for DispatchLoop {
    type V = LoopModel;

    closed spec fn view(&self) -> LoopModel {
        LoopModel { deadline: self.deadline, stopped: self.stopped }
    }
}

impl DispatchLoop {
    /// A running loop that stops once `deadline` seconds have gone by, or
    /// that has no deadline.
    pub fn new(deadline: Option<u64>) -> (dispatch: DispatchLoop)
        ensures
            dispatch@ == (LoopModel { deadline, stopped: None }),
    {
        DispatchLoop { deadline, stopped: None }
    }

    /// Tests whether the loop has not stopped.
    pub fn is_running(&self) -> (running: bool)
        ensures
            running == self@.running(),
    {
        self.stopped.is_none()
    }

    /// Why the loop stopped, once it has.
    pub fn stop_reason(&self) -> (reason: Option<StopReason>)
        ensures
            reason == self@.stopped,
    {
        self.stopped
    }

    /// The deadline of the loop, in seconds.
    pub fn deadline(&self) -> (deadline: Option<u64>)
        ensures
            deadline == self@.deadline,
    {
        self.deadline
    }

    /// Takes note of `signal`: a running loop stops where the signal is a
    /// request for the end, a failure to fetch, or a reading of the clock at
    /// or past the deadline.
    pub fn observe(&mut self, signal: Signal)
        ensures
            final(self)@ == old(self)@.after(signal),
    {
        if self.stopped.is_none() {
            self.stopped = match signal {
                Signal::Cancel => Some(StopReason::Cancelled),
                Signal::Elapsed { seconds } => match self.deadline {
                    Some(deadline) => if seconds >= deadline {
                        Some(StopReason::DeadlineElapsed)
                    } else {
                        None
                    },
                    None => None,
                },
                Signal::DispatchFailed => Some(StopReason::DispatchFailed),
            };
        }
    }

    /// The deliveries for one round of events: while the loop runs, every
    /// event routed, in the order of arrival; nothing once it has stopped.
    pub fn dispatch<P>(
        &self,
        decoder: &KeystrokeDecoder,
        events: Vec<InputEvent<P>>,
    ) -> (deliveries: Vec<Delivery<P>>)
        ensures
            deliveries.len() == self@.dispatched(*decoder, events@).len(),
            forall|i: int|
                0 <= i < deliveries.len() ==> (#[trigger] deliveries[i])@ == self@.dispatched(
                    *decoder,
                    events@,
                )[i],
    {
        if self.stopped.is_none() {
            route_all(decoder, events)
        } else {
            Vec::new()
        }
    }
}

/// Events reach the handler in the order in which they came: a running loop
/// delivers one delivery for each event, the `i`-th for the `i`-th.
pub proof fn lemma_dispatch_keeps_order<P>(
    dispatch: LoopModel,
    decoder: KeystrokeDecoder,
    events: Seq<InputEvent<P>>,
    i: int,
)
    requires
        dispatch.running(),
        0 <= i < events.len(),
    ensures
        dispatch.dispatched(decoder, events).len() == events.len(),
        dispatch.dispatched(decoder, events)[i] == routed(decoder, events[i]),
{
}

/// How the events are cut into rounds makes no difference to what the
/// handler receives, and in what order: two rounds deliver what one round of
/// all their events delivers.
pub proof fn lemma_rounds_join<P>(
    dispatch: LoopModel,
    decoder: KeystrokeDecoder,
    first: Seq<InputEvent<P>>,
    second: Seq<InputEvent<P>>,
)
    ensures
        dispatch.dispatched(decoder, first + second) == dispatch.dispatched(decoder, first)
            + dispatch.dispatched(decoder, second),
{
    assert(dispatch.dispatched(decoder, first + second) =~= dispatch.dispatched(decoder, first)
        + dispatch.dispatched(decoder, second));
}

/// A stop is final: whatever a stopped loop is told, it stays stopped for
/// the reason it stopped for, and it delivers nothing any more.
pub proof fn lemma_stop_is_final<P>(
    dispatch: LoopModel,
    signals: Seq<Signal>,
    decoder: KeystrokeDecoder,
    events: Seq<InputEvent<P>>,
)
    requires
        !dispatch.running(),
    ensures
        dispatch.after_all(signals) == dispatch,
        dispatch.after_all(signals).dispatched(decoder, events).len() == 0,
    decreases signals.len(),
{
    if signals.len() > 0 {
        lemma_stop_is_final(dispatch, signals.drop_first(), decoder, events);
    }
}

/// A running loop stops on a request for the end, on a failure to fetch,
/// and on a reading of the clock that has reached its deadline; on nothing
/// else.
pub proof fn lemma_stop_conditions(dispatch: LoopModel, signal: Signal)
    requires
        dispatch.running(),
    ensures
        dispatch.after(signal).deadline == dispatch.deadline,
        !dispatch.after(signal).running() <==> signal is Cancel || signal is DispatchFailed || (
        signal is Elapsed && dispatch.deadline is Some && signal->seconds >= dispatch.deadline->0),
{
}

} // verus!
