//! Marker components attached to game entities.

use vstd::prelude::*;

verus! {

/// Marks the entity that the player controls.
#[derive(Clone, Copy, Debug, Eq, PartialEq, Default)]
pub struct TagPlayer;

} // verus!
