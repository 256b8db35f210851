//! Input events and their routing.
//!
//! An input session produces events of many classes. A keyboard event is
//! decoded before it is delivered; an event of any other class is delivered
//! as it came. What an event carries besides its class, and besides the raw
//! keycode of a keyboard event, is its payload, which routing never touches.
use crate::decoder::{KeystrokeDecoder, KEYCODE_OFFSET};
use vstd::prelude::*;
use vstd::slice::slice_to_vec;

verus! {

/// An event of an input session, with a payload of type `P`.
#[derive(Debug, PartialEq, Eq)]
pub enum InputEvent<P> {
    /// A seat appeared.
    SeatAdded(P),
    /// A seat changed.
    SeatChanged(P),
    /// A seat went away.
    SeatRemoved(P),
    /// A key was pressed or released.
    Keyboard {
        /// The raw keycode of the key.
        keycode: u32,
        /// The rest of the event.
        payload: P,
    },
    /// The pointer moved by some distance.
    PointerMotion(P),
    /// The pointer moved to a place.
    PointerMotionAbsolute(P),
    /// A pointer button was pressed or released.
    PointerButton(P),
    /// A pointer axis was moved.
    PointerAxis(P),
    /// A touch point appeared.
    TouchDown(P),
    /// A touch point moved.
    TouchMotion(P),
    /// A touch point went away.
    TouchUp(P),
    /// A touch sequence was cancelled.
    TouchCancel(P),
    /// A set of touch events is complete.
    TouchFrame(P),
    /// A device was attached.
    DeviceAdded(P),
    /// A device was reconfigured.
    DeviceChanged(P),
    /// A device was removed.
    DeviceRemoved(P),
    /// An event of a class of the backend's own.
    Special(P),
}

/// What the handler receives for one event.
#[derive(Debug, PartialEq, Eq)]
pub enum Delivery<P> {
    /// A decoded keyboard event.
    Key {
        /// The raw keycode of the key.
        keycode: u32,
        /// The keysyms bound to the key.
        keysyms: Vec<u32>,
        /// The characters that the key produces.
        chars: Vec<char>,
        /// The rest of the event.
        payload: P,
    },
    /// An event of another class, as it came.
    Forwarded(InputEvent<P>),
}

/// A delivery as a mathematical value.
pub enum DeliveryModel<P> {
    Key { keycode: u32, keysyms: Seq<u32>, chars: Seq<char>, payload: P },
    Forwarded(InputEvent<P>),
}

impl<P> View for Delivery<P> {
    type V = DeliveryModel<P>;

    open spec fn view(&self) -> DeliveryModel<P> {
        match *self {
            Delivery::Key { keycode, keysyms, chars, payload } => DeliveryModel::Key {
                keycode,
                keysyms: keysyms@,
                chars: chars@,
                payload,
            },
            Delivery::Forwarded(event) => DeliveryModel::Forwarded(event),
        }
    }
}

/// What `decoder` makes of `event`: a keyboard event is decoded to the
/// keysyms and characters of its keycode, any other event is forwarded
/// unchanged.
pub open spec fn routed<P>(decoder: KeystrokeDecoder, event: InputEvent<P>) -> DeliveryModel<P> {
    match event {
        InputEvent::Keyboard { keycode, payload } => DeliveryModel::Key {
            keycode,
            keysyms: decoder.keysyms_of(keycode),
            chars: decoder.chars_of(keycode),
            payload,
        },
        _ => DeliveryModel::Forwarded(event),
    }
}

impl<P> InputEvent<P> {
    /// The raw keycode of a keyboard event; `None` for any other event.
    pub fn keycode(&self) -> (keycode: Option<u32>)
        ensures
            keycode == match *self {
                InputEvent::Keyboard { keycode, .. } => Some(keycode),
                _ => None,
            },
    {
        match self {
            InputEvent::Keyboard { keycode, .. } => Some(*keycode),
            _ => None,
        }
    }
}

impl<P> Delivery<P> {
    /// Tests whether this is a decoded keyboard event with `keysym` among
    /// its keysyms.
    pub fn has_keysym(&self, keysym: u32) -> (found: bool)
        ensures
            found == match self@ {
                DeliveryModel::Key { keysyms, .. } => keysyms.contains(keysym),
                DeliveryModel::Forwarded(_) => false,
            },
    {
        match self {
            Delivery::Key { keysyms, .. } => {
                let mut i: usize = 0;
                while i < keysyms.len()
                    invariant
                        i <= keysyms.len(),
                        self@ is Key,
                        self@->keysyms == keysyms@,
                        forall|j: int| 0 <= j < i ==> keysyms@[j] != keysym,
                    decreases keysyms.len() - i,
                {
                    if keysyms[i] == keysym {
                        return true;
                    }
                    i += 1;
                }
                false
            },
            Delivery::Forwarded(_) => false,
        }
    }
}

/// Routes one event: decodes it where it is a keyboard event, forwards it
/// unchanged where it is not.
pub fn route<P>(decoder: &KeystrokeDecoder, event: InputEvent<P>) -> (delivery: Delivery<P>)
    ensures
        delivery@ == routed(*decoder, event),
{
    match event {
        InputEvent::Keyboard { keycode, payload } => Delivery::Key {
            keycode,
            keysyms: slice_to_vec(decoder.decode_as_keysym(keycode)),
            chars: decoder.decode_as_chars(keycode),
            payload,
        },
        other => Delivery::Forwarded(other),
    }
}

/// Routes a batch of events: one delivery for each event, in the order in
/// which the events came.
pub fn route_all<P>(
    decoder: &KeystrokeDecoder,
    events: Vec<InputEvent<P>>,
) -> (deliveries: Vec<Delivery<P>>)
    ensures
        deliveries.len() == events.len(),
        forall|i: int|
            0 <= i < events.len() ==> (#[trigger] deliveries[i])@ == routed(*decoder, events[i]),
{
    let ghost all = events@;
    let mut deliveries: Vec<Delivery<P>> = Vec::new();
    for event in it: events
        invariant
            it.seq() == all,
            deliveries.len() == it.index(),
            forall|i: int|
                0 <= i < deliveries.len() ==> (#[trigger] deliveries[i])@ == routed(
                    *decoder,
                    all[i],
                ),
    {
        deliveries.push(route(decoder, event));
    }
    deliveries
}

/// Only keyboard events are decoded: every other event reaches the handler
/// exactly as it came, and a keyboard event reaches it with its keycode and
/// payload unchanged.
pub proof fn lemma_routing_by_class<P>(decoder: KeystrokeDecoder, event: InputEvent<P>)
    ensures
        !(event is Keyboard) ==> routed(decoder, event) == DeliveryModel::Forwarded(event),
        event is Keyboard ==> routed(decoder, event) == (DeliveryModel::Key {
            keycode: event->keycode,
            keysyms: decoder.keymap().keysyms_at(event->keycode + KEYCODE_OFFSET),
            chars: decoder.keymap().text_at(event->keycode + KEYCODE_OFFSET),
            payload: event->payload,
        }),
{
}

} // verus!
