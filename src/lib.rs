use vstd::prelude::*;

pub mod api;
pub mod cargo_management;
pub mod contracts;
pub mod extraction;
pub mod ships;

verus! {

} // verus!
