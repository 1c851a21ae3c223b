//! Subscriptions to the result of an arbitrary method call, re-evaluated on
//! every tick and reported only when the result changes.
pub mod metadata;
pub mod poll_manager;
pub mod pubsub;
