//! The request body that creates a player.

use vstd::prelude::*;

verus! {

/// The body of a create-player request.
pub struct CreatePlayer {
    pub username: String,
}

} // verus!
