use input_gatherer::decoder::KeystrokeDecoder;
use input_gatherer::dispatch::{DispatchLoop, Signal, StopReason};
use input_gatherer::event::{route, route_all, Delivery, InputEvent};
use input_gatherer::keymap::{KeyBinding, SymbolicKeymap};

const KEY_ESC: u32 = 1;
const KEY_A: u32 = 30;
const KEY_B: u32 = 48;
const KEY_X: u32 = 45;
const SYM_ESCAPE: u32 = 0xff1b;

/// What the recorded events carry: a time stamp and two coordinates.
type Payload = (u32, i32, i32);

fn decoder() -> KeystrokeDecoder {
    let mut keymap = SymbolicKeymap::new(String::from("us"));
    keymap.bind(KEY_ESC + 8, KeyBinding::new(vec![SYM_ESCAPE], vec!['\u{1b}']));
    keymap.bind(KEY_A + 8, KeyBinding::new(vec![0x61], vec!['a']));
    keymap.bind(KEY_B + 8, KeyBinding::new(vec![0x62], vec!['b']));
    keymap.bind(KEY_X + 8, KeyBinding::new(vec![0x78], vec!['x']));
    KeystrokeDecoder::with_keymap(keymap)
}

fn key(keycode: u32, time: u32) -> InputEvent<Payload> {
    InputEvent::Keyboard { keycode, payload: (time, 0, 0) }
}

fn decoded(keycode: u32, keysym: u32, c: char, time: u32) -> Delivery<Payload> {
    Delivery::Key { keycode, keysyms: vec![keysym], chars: vec![c], payload: (time, 0, 0) }
}

#[test]
fn three_events_are_delivered_in_their_order() {
    let events = vec![key(KEY_A, 1), InputEvent::PointerMotion((2, 5, -3)), key(KEY_B, 3)];
    let dispatch = DispatchLoop::new(None);
    assert_eq!(
        dispatch.dispatch(&decoder(), events),
        vec![
            decoded(KEY_A, 0x61, 'a', 1),
            Delivery::Forwarded(InputEvent::PointerMotion((2, 5, -3))),
            decoded(KEY_B, 0x62, 'b', 3),
        ]
    );
}

#[test]
fn keyboard_event_is_decoded_and_pointer_motion_is_forwarded() {
    let decoder = decoder();
    match route(&decoder, key(KEY_X, 7)) {
        Delivery::Key { chars, .. } => assert_eq!(chars, vec!['x']),
        Delivery::Forwarded(_) => panic!("a keyboard event was forwarded"),
    }
    assert_eq!(route(&decoder, key(KEY_X, 7)), decoded(KEY_X, 0x78, 'x', 7));
    assert_eq!(
        route(&decoder, InputEvent::PointerMotion((8, 120, -45))),
        Delivery::Forwarded(InputEvent::PointerMotion((8, 120, -45)))
    );
}

#[test]
fn keyboard_event_of_an_unbound_key_is_still_a_key_delivery() {
    assert_eq!(
        route(&decoder(), key(250, 9)),
        Delivery::Key { keycode: 250, keysyms: vec![], chars: vec![], payload: (9, 0, 0) }
    );
}

#[test]
fn every_other_class_is_forwarded_as_it_came() {
    let decoder = decoder();
    let p: Payload = (4, 1, 2);
    let make: Vec<fn(Payload) -> InputEvent<Payload>> = vec![
        InputEvent::SeatAdded,
        InputEvent::SeatChanged,
        InputEvent::SeatRemoved,
        InputEvent::PointerMotion,
        InputEvent::PointerMotionAbsolute,
        InputEvent::PointerButton,
        InputEvent::PointerAxis,
        InputEvent::TouchDown,
        InputEvent::TouchMotion,
        InputEvent::TouchUp,
        InputEvent::TouchCancel,
        InputEvent::TouchFrame,
        InputEvent::DeviceAdded,
        InputEvent::DeviceChanged,
        InputEvent::DeviceRemoved,
        InputEvent::Special,
    ];
    for f in make {
        assert_eq!(f(p).keycode(), None);
        assert_eq!(route(&decoder, f(p)), Delivery::Forwarded(f(p)));
    }
    assert_eq!(key(KEY_A, 0).keycode(), Some(KEY_A));
}

#[test]
fn batch_is_routed_one_for_one() {
    let decoder = decoder();
    let events = vec![
        InputEvent::SeatAdded((0, 0, 0)),
        InputEvent::DeviceAdded((1, 0, 0)),
        key(KEY_X, 2),
        InputEvent::TouchDown((3, 10, 20)),
        key(KEY_ESC, 4),
    ];
    let deliveries = route_all(&decoder, events);
    assert_eq!(
        deliveries,
        vec![
            Delivery::Forwarded(InputEvent::SeatAdded((0, 0, 0))),
            Delivery::Forwarded(InputEvent::DeviceAdded((1, 0, 0))),
            decoded(KEY_X, 0x78, 'x', 2),
            Delivery::Forwarded(InputEvent::TouchDown((3, 10, 20))),
            decoded(KEY_ESC, SYM_ESCAPE, '\u{1b}', 4),
        ]
    );
    assert_eq!(route_all(&decoder, Vec::<InputEvent<Payload>>::new()), vec![]);
}

#[test]
fn delivery_knows_its_keysyms() {
    let decoder = decoder();
    let escape = route(&decoder, key(KEY_ESC, 0));
    assert!(escape.has_keysym(SYM_ESCAPE));
    assert!(!escape.has_keysym(0x61));
    let several: Delivery<Payload> =
        Delivery::Key { keycode: 3, keysyms: vec![5, 6, 7], chars: vec![], payload: (0, 0, 0) };
    assert!(several.has_keysym(5));
    assert!(several.has_keysym(7));
    assert!(!several.has_keysym(8));
    let unbound = route(&decoder, key(250, 0));
    assert!(!unbound.has_keysym(SYM_ESCAPE));
    let forwarded = route(&decoder, InputEvent::PointerButton((0, 0xff1b, 0)));
    assert!(!forwarded.has_keysym(SYM_ESCAPE));
}

#[test]
fn new_loop_runs() {
    let dispatch = DispatchLoop::new(Some(5));
    assert!(dispatch.is_running());
    assert_eq!(dispatch.stop_reason(), None);
    assert_eq!(dispatch.deadline(), Some(5));
    assert_eq!(DispatchLoop::new(None).deadline(), None);
}

#[test]
fn cancelled_loop_delivers_nothing_more() {
    let decoder = decoder();
    let mut dispatch = DispatchLoop::new(Some(5));
    assert_eq!(dispatch.dispatch(&decoder, vec![key(KEY_A, 1)]).len(), 1);
    dispatch.observe(Signal::Cancel);
    assert!(!dispatch.is_running());
    assert_eq!(dispatch.stop_reason(), Some(StopReason::Cancelled));
    assert_eq!(dispatch.dispatch(&decoder, vec![key(KEY_A, 2), key(KEY_B, 3)]), vec![]);
    assert_eq!(dispatch.dispatch(&decoder, vec![InputEvent::PointerMotion((4, 1, 1))]), vec![]);
}

#[test]
fn loop_stops_when_the_deadline_is_reached() {
    let mut dispatch = DispatchLoop::new(Some(5));
    dispatch.observe(Signal::Elapsed { seconds: 0 });
    dispatch.observe(Signal::Elapsed { seconds: 4 });
    assert!(dispatch.is_running());
    dispatch.observe(Signal::Elapsed { seconds: 5 });
    assert!(!dispatch.is_running());
    assert_eq!(dispatch.stop_reason(), Some(StopReason::DeadlineElapsed));

    let mut late = DispatchLoop::new(Some(5));
    late.observe(Signal::Elapsed { seconds: 6 });
    assert_eq!(late.stop_reason(), Some(StopReason::DeadlineElapsed));

    let mut at_once = DispatchLoop::new(Some(0));
    at_once.observe(Signal::Elapsed { seconds: 0 });
    assert_eq!(at_once.stop_reason(), Some(StopReason::DeadlineElapsed));
}

#[test]
fn loop_without_deadline_ignores_the_clock() {
    let mut dispatch = DispatchLoop::new(None);
    dispatch.observe(Signal::Elapsed { seconds: u64::MAX });
    assert!(dispatch.is_running());
    assert_eq!(dispatch.stop_reason(), None);
}

#[test]
fn failed_fetch_stops_the_loop() {
    let mut dispatch = DispatchLoop::new(Some(5));
    dispatch.observe(Signal::DispatchFailed);
    assert_eq!(dispatch.stop_reason(), Some(StopReason::DispatchFailed));
    assert_eq!(dispatch.dispatch(&decoder(), vec![key(KEY_A, 1)]), vec![]);
}

#[test]
fn stop_is_final_and_keeps_its_reason() {
    let mut dispatch = DispatchLoop::new(Some(5));
    dispatch.observe(Signal::Elapsed { seconds: 9 });
    for signal in [
        Signal::Cancel,
        Signal::DispatchFailed,
        Signal::Elapsed { seconds: 0 },
        Signal::Elapsed { seconds: 100 },
    ] {
        dispatch.observe(signal);
        assert!(!dispatch.is_running());
        assert_eq!(dispatch.stop_reason(), Some(StopReason::DeadlineElapsed));
        assert_eq!(dispatch.deadline(), Some(5));
    }
}

#[test]
fn two_rounds_deliver_what_one_round_of_all_delivers() {
    let decoder = decoder();
    let dispatch = DispatchLoop::new(Some(5));
    let first = || vec![key(KEY_A, 1), InputEvent::PointerAxis((2, 0, 15))];
    let second = || vec![key(KEY_ESC, 3), InputEvent::TouchUp((4, 0, 0)), key(KEY_B, 5)];
    let mut joined = first();
    joined.extend(second());
    let mut in_rounds = dispatch.dispatch(&decoder, first());
    in_rounds.extend(dispatch.dispatch(&decoder, second()));
    assert_eq!(dispatch.dispatch(&decoder, joined), in_rounds);
    assert_eq!(in_rounds.len(), 5);
}
