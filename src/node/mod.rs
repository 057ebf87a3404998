//! The node side: parameter store, event queue and request handling.

pub mod broadcast_timer;
pub mod error;
pub mod event_queue;
pub mod getset_protocol;
pub mod params;
pub mod sys_clock;
