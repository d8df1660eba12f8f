//! The falling, flapping player.
use vstd::prelude::*;

use crate::trunc_div;

verus! {

/// Speed gained each physics tick, in tenths of a cell per tick.
pub const GRAVITY: i32 = 2;

/// Highest falling speed, in tenths of a cell per tick.
pub const TERMINAL_VELOCITY: i32 = 20;

/// Speed set by a flap, in tenths of a cell per tick (negative is upward).
pub const FLAP_VELOCITY: i32 = -20;

/// Column of the screen at which the player is always drawn.
pub const PLAYER_SCREEN_X: i32 = 5;

/// An axis-aligned box on the screen.
#[derive(Clone, Copy, Debug, PartialEq, Eq)]
pub struct Rect {
    pub x: i32,
    pub y: i32,
    pub width: i32,
    pub height: i32,
}

/// The player. `x` is the world column, `y` the row (0 at the top), and
/// `velocity` the vertical speed in tenths of a cell per tick.
#[derive(Clone, Copy, Debug, PartialEq, Eq)]
pub struct Player {
    pub x: i32,
    pub y: i32,
    pub velocity: i32,
    pub width: i32,
    pub height: i32,
}

/// The whole cells that a speed of `velocity` tenths moves in one tick.
pub open spec fn cells_moved(velocity: int) -> int {
    trunc_div(velocity, 10)
}

/// The speed after one tick of gravity.
pub open spec fn accelerated(velocity: int) -> int {
    if velocity < TERMINAL_VELOCITY {
        velocity + GRAVITY
    } else {
        velocity
    }
}

/// The player after one physics tick.
pub open spec fn after_tick(p: Player) -> Player {
    let velocity = accelerated(p.velocity as int);
    let y = p.y + cells_moved(velocity);
    Player {
        x: (p.x + 1) as i32,
        y: if y < 0 { 0 } else { y as i32 },
        velocity: velocity as i32,
        ..p
    }
}

/// The player after a flap.
pub open spec fn flapped(p: Player) -> Player {
    Player { velocity: FLAP_VELOCITY, ..p }
}

impl Player {
    /// The speed is one that gravity and flaps can produce: between the flap
    /// speed and the terminal speed, in whole steps of gravity.
    pub open spec fn wf(&self) -> bool {
        &&& FLAP_VELOCITY <= self.velocity <= TERMINAL_VELOCITY
        &&& self.velocity % 2 == 0
    }

    /// A player at rest at (`x`, `y`), one cell wide and high.
    pub fn new(x: i32, y: i32) -> (r: Player)
        ensures
            r == (Player { x, y, velocity: 0, width: 1, height: 1 }),
            r.wf(),
    {
        Player { x, y, velocity: 0, width: 1, height: 1 }
    }

    /// The box that draws the player, at its fixed screen column.
    pub fn render(&self) -> (r: Rect)
        ensures
            r == (Rect { x: PLAYER_SCREEN_X, y: self.y, width: self.width, height: self.height }),
    {
        Rect { x: PLAYER_SCREEN_X, y: self.y, width: self.width, height: self.height }
    }

    /// One physics tick: gravity speeds the fall up to the terminal speed, the
    /// player moves by the whole cells of its speed and one column forward,
    /// and is held at row 0 or below.
    pub fn gravity_and_move(&mut self)
        requires
            old(self).wf(),
            old(self).x < i32::MAX,
            i32::MIN + 2 <= old(self).y <= i32::MAX - 2,
        ensures
            *final(self) == after_tick(*old(self)),
            final(self).x == old(self).x + 1,
            final(self).wf(),
            final(self).velocity <= TERMINAL_VELOCITY,
            final(self).velocity >= old(self).velocity,
            final(self).y >= 0,
    {
        if self.velocity < TERMINAL_VELOCITY {
            self.velocity = self.velocity + GRAVITY;
        }
        let step: i32 = if self.velocity >= 0 {
            self.velocity / 10
        } else {
            -((-self.velocity) / 10)
        };
        self.y = self.y + step;
        self.x = self.x + 1;
        if self.y < 0 {
            self.y = 0;
        }
    }

    /// An upward impulse: the speed becomes the flap speed, whatever it was.
    pub fn flap(&mut self)
        ensures
            *final(self) == flapped(*old(self)),
            final(self).wf(),
    {
        self.velocity = FLAP_VELOCITY;
    }
}

} // verus!
