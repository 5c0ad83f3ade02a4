use vstd::prelude::*;

pub mod uniform;
pub mod item;
pub mod registry;
pub mod renderer;

verus! {

} // verus!
