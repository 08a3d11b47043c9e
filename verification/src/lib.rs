//! Control plane of a togglable picker daemon: the wire frames that clients
//! send, the queue that hands them to the thread owning the window, and the
//! state machines that decide what the window and its pickers do next.
//!
//! - `message`: the fixed-width frames and the messages they carry.
//! - `transport`: what a connection handler, the accept loop and a liveness
//!   probe decide.
//! - `queue`: the first-in, first-out hand-off to the window's thread.
//! - `daemon`: the picker state machine driven by dequeued messages.
//! - `pickers`: picker kinds, the picker capability, and the state of the
//!   application picker.
//! - `args`: the commands of the front end and the steps each takes.
//! - `config`, `desktop`, `bytes`, `text`: the configuration and the desktop
//!   entries it is filled from.
//! - `fuzzy`, `blocks`, `misc`: matching, row texts, and small decisions
//!   around the daemon.

pub mod pickers;
pub mod message;
pub mod fuzzy;
pub mod queue;
pub mod config;
pub mod daemon;
pub mod transport;
pub mod args;
pub mod misc;
pub mod text;
pub mod bytes;
pub mod desktop;
pub mod blocks;
