//! Debugging utilities.

use vstd::prelude::*;

use crate::ecs::access::Component;

verus! {

/// Component that can be used to give editor-visible names to entities.
#[derive(Clone, PartialEq, Eq, Debug)]
pub struct DebugName(pub String);

impl Component for DebugName {

}

} // verus!
