//! Built-in demo components.

use vstd::prelude::*;

use crate::ecs::access::Component;

verus! {

/// A plain counter component: the smallest useful piece of per-entity
/// state, convenient for exercising read and write system data shapes.
#[derive(Clone, Copy, PartialEq, Eq, Structural, Debug)]
pub struct Counter(pub u64);

impl Component for Counter {

}

} // verus!
