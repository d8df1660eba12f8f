//! A small side-scrolling arcade game: a player falls under gravity and flaps
//! through gapped obstacles. The library holds the whole game logic (physics,
//! obstacle generation, collision, scoring and the mode state machine); drawing
//! and keyboard polling belong to the program that drives it.
use vstd::prelude::*;

pub mod game;
pub mod obstacle;
pub mod player;
mod rng;

verus! {

/// Width of the play field, in cells.
pub const SCREEN_WIDTH: i32 = 100;

/// Height of the play field, in cells.
pub const SCREEN_HEIGHT: i32 = 70;

/// Quotient of `a` by a positive `d`, rounded toward zero as Rust's `/` and an
/// `as` cast of a float do.
pub open spec fn trunc_div(a: int, d: int) -> int {
    if a >= 0 {
        a / d
    } else {
        -((-a) / d)
    }
}

/// Half of `n`, rounded toward zero.
pub fn half(n: i32) -> (r: i32)
    ensures
        r == trunc_div(n as int, 2),
{
    if n >= 0 {
        n / 2
    } else {
        -((-(n as i64)) / 2) as i32
    }
}

} // verus!
