//! The audit trail: the events recorded for every split and rejoin of a
//! file's shares, how an event is checked and dispatched to a chain, and
//! the Merkle tree that seals a window of events.

pub mod events;
pub mod poseidon;
pub mod merkle;
pub mod window;
pub mod viewer;
pub mod viewer_state;
pub mod event_list;
