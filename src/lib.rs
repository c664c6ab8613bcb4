//! Containers that keep a bounded history of values: a fixed-capacity ring
//! ([`ring::Fixed`]), a ring whose capacity changes at run time
//! ([`varied::Varied`]) and a store of values under increasing versions
//! ([`versioned::Versioned`]), each with a counterpart shared between threads
//! behind locks ([`ring_sync::RwFixed`], [`versioned_sync::RwVersioned`]), and the
//! sealed framing used to keep them in encrypted files ([`sealed`]).

pub mod ring;
pub mod ring_sync;
pub mod sealed;
mod std_ops;
pub mod varied;
pub mod versioned;
pub mod versioned_sync;
