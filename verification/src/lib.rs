use vstd::prelude::*;

pub mod contract;
pub mod node;
pub mod text;
pub mod transport;

verus! {

} // verus!
