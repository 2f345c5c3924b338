//! Session-coordination core of a multi-party meeting room: the room state
//! store, admission control, per-subscriber event filtering and the
//! per-connection session state machine.

pub mod protocol;
pub mod keys;
pub mod room;
pub mod fanout;
pub mod session;
mod fresh;
pub mod laws;
pub mod client;
