//! Reactive subscriptions over an entity store.
//!
//! Monitors subscribe to the lifecycle (attach, mutate, detach) of one state
//! type, on a target entity, on themselves, or on every entity. This crate
//! holds the bookkeeping and the resolution of each lifecycle signal into the
//! exact set of notices to raise. Entities are named by their 64-bit ids.
pub mod lists;
pub mod dispatch;
pub mod window;
pub mod relation;
pub mod registry;
pub mod hub;
pub mod laws;
