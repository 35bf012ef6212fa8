//! A generation-tagged rendering cache whose entries carry a dependency tracker
//! over reactive properties, and the bookkeeping of a live-preview content cache.
use vstd::prelude::*;

pub mod graphics;
pub mod preview;
pub mod properties;

verus! {

} // verus!
