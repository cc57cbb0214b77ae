use vstd::prelude::*;

pub mod ball;
pub mod block;
pub mod game;
pub mod geometry;
pub mod player;

verus! {

} // verus!
