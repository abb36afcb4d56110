//! A lightweight entity/component runtime core.
//!
//! The crate provides entity identity with an embedded liveness flag, two
//! interchangeable component storage backends with shared and exclusive
//! access views, an entity registry with a fluent builder, and the
//! declarative data-dependency protocol that lets heterogeneously-typed
//! per-frame systems be driven from one homogeneous loop.

use vstd::prelude::*;

pub mod components;
pub mod debug;
pub mod ecs;

verus! {

/// Time since the last update, in nanoseconds.
///
/// The frame driver measures the real duration; the core only threads the
/// value through to each system's update entry point.
#[derive(Clone, Copy, PartialEq, Eq, Structural, Debug)]
pub struct Delta(pub u64);

impl Delta {
    /// Nanoseconds carried by this delta.
    pub fn nanos(&self) -> (n: u64)
        ensures
            n == self.0,
    {
        self.0
    }
}

} // verus!
