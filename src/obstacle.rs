//! A scrolling wall with a gap that the player must fly through.
use vstd::prelude::*;

use bracket_lib::random::RandomNumberGenerator;

use crate::player::Player;
use crate::rng::random_range;
use crate::{half, trunc_div, SCREEN_HEIGHT, SCREEN_WIDTH};

verus! {

/// Narrowest gap that an obstacle can have.
pub const MIN_GAP: i32 = 10;

/// Gap of the obstacles spawned at score 0; each point narrows it by one.
pub const START_GAP: i32 = 50;

/// Lowest row (inclusive) for the center of a gap.
pub const GAP_Y_LOW: i32 = 10;

/// Row past the highest one for the center of a gap.
pub const GAP_Y_HIGH: i32 = 40;

/// One cell of a drawn obstacle: a bar two cells wide, at a screen column.
#[derive(Clone, Copy, Debug, PartialEq, Eq)]
pub struct Bar {
    pub x: i32,
    pub y: i32,
}

/// An obstacle at world column `x`, whose gap of `size` rows is centered on
/// row `gap_y`.
#[derive(Clone, Copy, Debug, PartialEq, Eq)]
pub struct Obstacle {
    pub x: i32,
    pub gap_y: i32,
    pub size: i32,
}

/// The gap of an obstacle spawned at `score`: it narrows by one per point,
/// down to the minimum.
pub open spec fn gap_size(score: int) -> int {
    if START_GAP - score > MIN_GAP {
        START_GAP - score
    } else {
        MIN_GAP as int
    }
}

/// First row of the gap (the wall above it ends there).
pub open spec fn gap_top(o: Obstacle) -> int {
    o.gap_y - trunc_div(o.size as int, 2)
}

/// First row of the wall below the gap.
pub open spec fn gap_bottom(o: Obstacle) -> int {
    o.gap_y + trunc_div(o.size as int, 2)
}

/// Number of rows drawn above the gap.
pub open spec fn top_rows(o: Obstacle) -> int {
    if gap_top(o) > 0 { gap_top(o) } else { 0 }
}

/// Number of rows drawn below the gap, down to the bottom of the screen.
pub open spec fn bottom_rows(o: Obstacle) -> int {
    if gap_bottom(o) < SCREEN_HEIGHT { SCREEN_HEIGHT - gap_bottom(o) } else { 0 }
}

/// Row of the `i`-th bar drawn: the rows above the gap from the top, then
/// those below it.
pub open spec fn bar_row(o: Obstacle, i: int) -> int {
    if i < top_rows(o) { i } else { gap_bottom(o) + (i - top_rows(o)) }
}

/// The bars that draw `o` for a player at world column `px`.
pub open spec fn bars_of(o: Obstacle, px: int) -> Seq<Bar> {
    Seq::new(
        (top_rows(o) + bottom_rows(o)) as nat,
        |i: int| Bar { x: (o.x - px) as i32, y: bar_row(o, i) as i32 },
    )
}

/// `o` is placed as spawning places obstacles for a player at world column
/// `px` and a score of `score`.
pub open spec fn spawned_ahead(o: Obstacle, px: int, score: int) -> bool {
    &&& px + SCREEN_WIDTH <= o.x < px + 2 * SCREEN_WIDTH
    &&& GAP_Y_LOW <= o.gap_y < GAP_Y_HIGH
    &&& o.size == gap_size(score)
}

/// The player stands in the obstacle's column and some of its height lies
/// outside the gap.
pub open spec fn hits(o: Obstacle, p: Player) -> bool {
    let half = trunc_div(p.height as int, 2);
    &&& p.x + half == o.x
    &&& (p.y - half < gap_top(o) || p.y + half > gap_bottom(o))
}

impl Obstacle {
    /// The gap is no narrower than the minimum and no wider than at score 0,
    /// and centered in the range that spawning draws from.
    pub open spec fn wf(&self) -> bool {
        &&& MIN_GAP <= self.size <= START_GAP
        &&& GAP_Y_LOW <= self.gap_y < GAP_Y_HIGH
    }

    /// The obstacle spawned at `player_x + offset` with its gap centered on
    /// `gap_y`, sized for `score`.
    pub fn from_rolls(player_x: i32, score: u64, offset: i32, gap_y: i32) -> (r: Obstacle)
        requires
            i32::MIN <= player_x + offset <= i32::MAX,
        ensures
            r.x == player_x + offset,
            r.gap_y == gap_y,
            r.size == gap_size(score as int),
    {
        let size: i32 = if score >= (START_GAP - MIN_GAP) as u64 {
            MIN_GAP
        } else {
            START_GAP - score as i32
        };
        Obstacle { x: player_x + offset, gap_y, size }
    }

    /// A new obstacle one to two screen widths ahead of `player_x`, its gap
    /// centered at random and sized for `score`.
    pub fn new(player_x: i32, score: u64) -> (r: Obstacle)
        requires
            player_x <= i32::MAX - 2 * SCREEN_WIDTH,
        ensures
            spawned_ahead(r, player_x as int, score as int),
            r.size == gap_size(score as int),
            r.wf(),
    {
        let mut random = RandomNumberGenerator::new();
        let offset = random_range(&mut random, SCREEN_WIDTH, SCREEN_WIDTH * 2);
        let gap_y = random_range(&mut random, GAP_Y_LOW, GAP_Y_HIGH);
        Obstacle::from_rolls(player_x, score, offset, gap_y)
    }

    /// The bars that draw the obstacle for a player at world column
    /// `player_x`: every row above the gap, then every row below it down to
    /// the bottom of the screen, all at the obstacle's screen column.
    pub fn render(&self, player_x: i32) -> (r: Vec<Bar>)
        requires
            self.wf(),
            i32::MIN <= self.x - player_x <= i32::MAX,
        ensures
            r@.len() == top_rows(*self) + bottom_rows(*self),
            forall|i: int| 0 <= i < r@.len() ==> r@[i].x == self.x - player_x,
            forall|i: int| 0 <= i < r@.len() ==> r@[i].y == bar_row(*self, i),
            r@ == bars_of(*self, player_x as int),
    {
        let screen_x = self.x - player_x;
        let half_size = self.size / 2;
        let top = self.gap_y - half_size;
        let bottom = self.gap_y + half_size;
        let mut bars: Vec<Bar> = Vec::new();
        let mut y: i32 = 0;
        while y < top
            invariant
                0 <= y,
                y <= top || y == 0,
                top == gap_top(*self),
                bars@.len() == y,
                forall|i: int| 0 <= i < bars@.len() ==> bars@[i].x == screen_x,
                forall|i: int| 0 <= i < bars@.len() ==> bars@[i].y == i,
            decreases top - y,
        {
            bars.push(Bar { x: screen_x, y });
            y = y + 1;
        }
        let ghost n_top = bars@.len();
        assert(n_top == top_rows(*self));
        let mut y: i32 = bottom;
        while y < SCREEN_HEIGHT
            invariant
                bottom == gap_bottom(*self),
                n_top == top_rows(*self),
                bottom <= y,
                y <= SCREEN_HEIGHT || y == bottom,
                bars@.len() == n_top + (y - bottom),
                forall|i: int| 0 <= i < bars@.len() ==> bars@[i].x == screen_x,
                forall|i: int| 0 <= i < bars@.len() ==> bars@[i].y == bar_row(*self, i),
            decreases SCREEN_HEIGHT - y,
        {
            bars.push(Bar { x: screen_x, y });
            y = y + 1;
        }
        assert(bars@ =~= bars_of(*self, player_x as int));
        bars
    }

    /// Whether the player collides with this obstacle.
    pub fn hit_obstacle(&self, player: &Player) -> (r: bool)
        ensures
            r == hits(*self, *player),
    {
        let half_size = half(self.size) as i64;
        let player_half = half(player.height) as i64;
        let does_x_match = player.x as i64 + player_half == self.x as i64;
        let above_gap = player.y as i64 - player_half < self.gap_y as i64 - half_size;
        let below_gap = player.y as i64 + player_half > self.gap_y as i64 + half_size;
        does_x_match && (above_gap || below_gap)
    }
}

} // verus!
