//! Turns the raw input of a seat into layout-aware keystrokes.
//!
//! The library decides; it reads no file, opens no device and keeps no time.
//! Its caller hands it what was read and what happened, and does what the
//! library says is to be done next.
//!
//! - [`config`] and [`layout`] find the keyboard layout to use: the explicit
//!   override, else the first assignment in the configuration text, else the
//!   empty layout, which stands for the defaults of the system.
//! - [`keymap`] and [`decoder`] turn a raw keycode into the keysyms and the
//!   characters that the keymap of the layout binds to it.
//! - [`session`] keeps account of the privileged handles of an input session:
//!   in what order they are acquired, and that they are given back in the
//!   reverse order, once, on every way out.
//! - [`event`] and [`dispatch`] route the events of a session to the handler,
//!   keyboard events decoded and all others as they came, in the order of
//!   their arrival, until the loop is stopped.
pub mod config;
pub mod decoder;
pub mod dispatch;
pub mod event;
pub mod keymap;
pub mod layout;
pub mod session;
