use vstd::prelude::*;

pub mod board;
pub mod session;
pub mod token;
pub mod win;

verus! {

} // verus!
