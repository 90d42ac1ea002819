//! Sequential, machine-checked models of three low-level synchronization
//! primitives: a shared-ownership handle with reference counting, a
//! mutual-exclusion lock with a scope-bound guard, and a single-message
//! handoff channel.
//!
//! Each primitive is modelled on plain values: the shared state that the
//! concurrent implementation guards with atomic operations appears here as
//! ordinary fields, and every cross-thread handoff appears as the serialized
//! transition that the acquire/release pairing of the real primitive
//! produces. The contracts pin down each transition exactly, and the proof
//! functions state the lifecycle laws (a payload freed exactly once, no lost
//! updates under serialized critical sections) that the concurrent versions
//! are trusted to provide.

pub mod arc;
pub mod one_shot;
pub mod spinlock;
