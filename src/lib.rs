//! Texture registry for a sprite atlas: tracks a batch of image loads, decides
//! when the batch may be packed, and publishes the name-to-region lookup table.
use vstd::prelude::*;

pub mod load_state;
pub mod naming;
pub mod registry;

verus! {

} // verus!
