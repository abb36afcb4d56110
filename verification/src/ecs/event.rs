//! Events the entity registry can report, such as an entity being added
//! or removed.

use vstd::prelude::*;

use crate::ecs::entity::Entity;

verus! {

/// A change of the entity registry.
#[derive(Clone, Copy, PartialEq, Eq, Structural, Debug)]
pub enum Event {
    /// The entity was added to the registry.
    EntityAdded(Entity),
    /// The entity was removed from the registry.
    EntityRemoved(Entity),
}

} // verus!
