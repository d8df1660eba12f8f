//! The game: its modes, what one frame does in each, and what it shows.
use vstd::prelude::*;

use crate::obstacle::{bars_of, hits, spawned_ahead, Bar, Obstacle};
use crate::player::{after_tick, flapped, Player, Rect, PLAYER_SCREEN_X, TERMINAL_VELOCITY};
use crate::{half, trunc_div, SCREEN_HEIGHT, SCREEN_WIDTH};

verus! {

/// Time that must build up, in microseconds, before a physics tick runs.
pub const FRAME_DURATION_US: u64 = 60_000;

/// A new obstacle appears on every tick whose count is a multiple of this.
pub const SPAWN_INTERVAL: u64 = 60;

/// Where a new run places the player.
pub const START_X: i32 = 5;

/// Where a new run places the player.
pub const START_Y: i32 = 25;

/// Obstacles that a new run starts with.
pub const RESTART_OBSTACLES: usize = 5;

/// The screen the game is on.
#[derive(Clone, Copy, Debug, PartialEq, Eq, Structural)]
pub enum GameMode {
    Menu,
    Playing,
    End,
}

/// The key pressed during a frame, as far as the game tells keys apart.
#[derive(Clone, Copy, Debug, PartialEq, Eq, Structural)]
pub enum Key {
    Space,
    P,
    Q,
    Other,
}

/// What a frame shows.
#[derive(Clone, Debug, PartialEq, Eq)]
pub enum Screen {
    /// The title screen with its two choices.
    Menu,
    /// The player's box, the bars of every obstacle and the score.
    Playing { player: Rect, bars: Vec<Bar>, score: u64 },
    /// The end screen with the points earned.
    Dead { score: u64 },
}

/// The outcome of one frame: what to show, and whether the player asked to
/// quit.
#[derive(Clone, Debug, PartialEq, Eq)]
pub struct Frame {
    pub screen: Screen,
    pub quit: bool,
}

/// The whole game. `frame_time` is the time, in microseconds, built up since
/// the last physics tick; `frame_count` counts the ticks.
#[derive(Clone, Debug, PartialEq, Eq)]
pub struct State {
    pub mode: GameMode,
    pub player: Player,
    pub frame_time: u64,
    pub obstacles: Vec<Obstacle>,
    pub score: u64,
    pub frame_count: u64,
}

/// A tick whose count is `frame_count` brings a new obstacle.
pub open spec fn spawn_due(frame_count: int) -> bool {
    frame_count % (SPAWN_INTERVAL as int) == 0
}

/// An obstacle that a player at world column `px` has not passed.
pub open spec fn ahead_of(px: int) -> spec_fn(Obstacle) -> bool {
    |o: Obstacle| o.x >= px
}

/// The obstacles of `s` that a player at world column `px` has not passed,
/// in their order.
pub open spec fn kept(s: Seq<Obstacle>, px: int) -> Seq<Obstacle> {
    s.filter(ahead_of(px))
}

/// Some obstacle of `s` collides with `p`.
pub open spec fn any_hit(s: Seq<Obstacle>, p: Player) -> bool {
    exists|i: int| 0 <= i < s.len() && hits(#[trigger] s[i], p)
}

/// The player's extent reaches the row just past the last one of the
/// screen.
pub open spec fn out_of_bounds(p: Player) -> bool {
    p.y + trunc_div(p.height as int, 2) >= SCREEN_HEIGHT
}

/// The bars of every obstacle of `s`, in order, for a player at `px`.
pub open spec fn scene_bars(s: Seq<Obstacle>, px: int) -> Seq<Bar>
    decreases s.len(),
{
    if s.len() == 0 {
        Seq::empty()
    } else {
        scene_bars(s.drop_last(), px) + bars_of(s.last(), px)
    }
}

/// The box that draws `p`.
pub open spec fn player_box(p: Player) -> Rect {
    Rect { x: PLAYER_SCREEN_X, y: p.y, width: p.width, height: p.height }
}

impl State {
    /// The player's speed is reachable and every obstacle is well formed.
    pub open spec fn wf(&self) -> bool {
        &&& self.player.wf()
        &&& forall|i: int| 0 <= i < self.obstacles@.len() ==> (#[trigger] self.obstacles@[i]).wf()
    }

    /// The numbers of a frame of play that adds `elapsed` microseconds fit
    /// their machine types.
    pub open spec fn has_room(&self, elapsed: u64) -> bool {
        &&& self.frame_time + elapsed <= u64::MAX
        &&& self.frame_count < u64::MAX
        &&& self.player.x < i32::MAX - 2 * SCREEN_WIDTH
        &&& i32::MIN + 2 <= self.player.y <= i32::MAX - 2
        &&& self.score + self.obstacles@.len() <= u64::MAX
        &&& forall|i: int|
            0 <= i < self.obstacles@.len() ==> i32::MIN + 1 <= #[trigger] self.obstacles@[i].x
                - self.player.x <= i32::MAX
    }

    /// Adding `elapsed` microseconds runs a physics tick.
    pub open spec fn ticks(&self, elapsed: u64) -> bool {
        self.frame_time + elapsed > FRAME_DURATION_US
    }

    /// The player after the physics and the input of one frame.
    pub open spec fn moved_player(&self, elapsed: u64, key: Option<Key>) -> Player {
        let p = if self.ticks(elapsed) {
            after_tick(self.player)
        } else {
            self.player
        };
        if key == Some(Key::Space) {
            flapped(p)
        } else {
            p
        }
    }
}

/// `n` and `r` are what one frame of play, `elapsed` microseconds long and
/// with `key` pressed, makes of `o`: time builds up until a tick moves the
/// player; a flap applies at once; the frame shows the moved player and the
/// obstacles as they were; an obstacle that collides ends the run; the
/// passed ones leave and score a point each; every so many ticks a new
/// obstacle appears ahead; a player below the screen ends the run.
pub open spec fn played(o: State, n: State, elapsed: u64, key: Option<Key>, r: Frame) -> bool {
    let ticked = o.ticks(elapsed);
    let p = o.moved_player(elapsed, key);
    let rest = kept(o.obstacles@, p.x as int);
    let spawned = ticked && spawn_due(n.frame_count as int);
    &&& n.player == p
    &&& n.frame_time == if ticked { 0 } else { o.frame_time + elapsed as int }
    &&& n.frame_count == if ticked { o.frame_count + 1 } else { o.frame_count as int }
    &&& n.score == o.score + (o.obstacles@.len() - rest.len())
    &&& n.mode == if any_hit(o.obstacles@, p) || out_of_bounds(p) {
        GameMode::End
    } else {
        o.mode
    }
    &&& if spawned {
        &&& n.obstacles@.len() == rest.len() + 1
        &&& n.obstacles@.drop_last() == rest
        &&& spawned_ahead(n.obstacles@.last(), p.x as int, n.score as int)
    } else {
        n.obstacles@ == rest
    }
    &&& r.quit == false
    &&& r.screen is Playing
    &&& r.screen->Playing_player == player_box(p)
    &&& r.screen->Playing_bars@ == scene_bars(o.obstacles@, p.x as int)
    &&& r.screen->Playing_score == o.score
}

/// `n` is a new run after `o`: the player back at the start, five fresh
/// obstacles ahead of it, no score and no time built up. The tick count goes
/// on.
pub open spec fn restarted(o: State, n: State) -> bool {
    &&& n.mode == GameMode::Playing
    &&& n.player == (Player { x: START_X, y: START_Y, velocity: 0, width: 1, height: 1 })
    &&& n.score == 0
    &&& n.frame_time == 0
    &&& n.frame_count == o.frame_count
    &&& n.obstacles@.len() == RESTART_OBSTACLES
    &&& forall|i: int|
        0 <= i < n.obstacles@.len() ==> spawned_ahead(#[trigger] n.obstacles@[i], START_X as int, 0)
}

/// What the menu and the end screen do with `key`: `P` starts a new run, `Q`
/// asks to quit, and anything else leaves the game as it was.
pub open spec fn answered(o: State, n: State, key: Option<Key>, quit: bool) -> bool {
    &&& quit == (key == Some(Key::Q))
    &&& if key == Some(Key::P) {
        restarted(o, n)
    } else {
        n == o
    }
}

/// The bars of all the obstacles, in order, for a player at `player_x`.
fn scene(obstacles: &Vec<Obstacle>, player_x: i32) -> (r: Vec<Bar>)
    requires
        forall|i: int| 0 <= i < obstacles@.len() ==> (#[trigger] obstacles@[i]).wf(),
        forall|i: int|
            0 <= i < obstacles@.len() ==> i32::MIN <= #[trigger] obstacles@[i].x - player_x
                <= i32::MAX,
    ensures
        r@ == scene_bars(obstacles@, player_x as int),
{
    let mut bars: Vec<Bar> = Vec::new();
    let mut i: usize = 0;
    while i < obstacles.len()
        invariant
            0 <= i <= obstacles@.len(),
            forall|j: int| 0 <= j < obstacles@.len() ==> (#[trigger] obstacles@[j]).wf(),
            forall|j: int|
                0 <= j < obstacles@.len() ==> i32::MIN <= #[trigger] obstacles@[j].x - player_x
                    <= i32::MAX,
            bars@ == scene_bars(obstacles@.subrange(0, i as int), player_x as int),
        decreases obstacles@.len() - i,
    {
        let mut more = obstacles[i].render(player_x);
        assert(obstacles@.subrange(0, i + 1).drop_last() =~= obstacles@.subrange(0, i as int));
        bars.append(&mut more);
        i = i + 1;
    }
    assert(obstacles@.subrange(0, i as int) =~= obstacles@);
    bars
}

/// The obstacles that `player` has not passed, in order, and whether any
/// obstacle collides with it.
fn sweep(obstacles: &Vec<Obstacle>, player: &Player) -> (r: (Vec<Obstacle>, bool))
    requires
        forall|i: int| 0 <= i < obstacles@.len() ==> (#[trigger] obstacles@[i]).wf(),
    ensures
        r.0@ == kept(obstacles@, player.x as int),
        r.1 == any_hit(obstacles@, *player),
        forall|i: int| 0 <= i < r.0@.len() ==> (#[trigger] r.0@[i]).wf(),
{
    let mut rest: Vec<Obstacle> = Vec::new();
    let mut hit = false;
    let mut i: usize = 0;
    while i < obstacles.len()
        invariant
            0 <= i <= obstacles@.len(),
            forall|j: int| 0 <= j < obstacles@.len() ==> (#[trigger] obstacles@[j]).wf(),
            rest@ == kept(obstacles@.subrange(0, i as int), player.x as int),
            hit == exists|j: int| 0 <= j < i && hits(#[trigger] obstacles@[j], *player),
            forall|j: int| 0 <= j < rest@.len() ==> (#[trigger] rest@[j]).wf(),
        decreases obstacles@.len() - i,
    {
        let o = obstacles[i];
        if o.hit_obstacle(player) {
            hit = true;
        }
        proof {
            reveal(Seq::filter);
            assert(obstacles@.subrange(0, i + 1).drop_last() =~= obstacles@.subrange(0, i as int));
        }
        if player.x <= o.x {
            rest.push(o);
        }
        i = i + 1;
    }
    assert(obstacles@.subrange(0, i as int) =~= obstacles@);
    (rest, hit)
}

impl State {
    /// A game on its title screen, the player at the start and one obstacle
    /// ahead.
    pub fn new() -> (r: State)
        ensures
            r.mode == GameMode::Menu,
            r.player == (Player { x: START_X, y: START_Y, velocity: 0, width: 1, height: 1 }),
            r.frame_time == 0,
            r.score == 0,
            r.frame_count == 0,
            r.obstacles@.len() == 1,
            spawned_ahead(r.obstacles@[0], SCREEN_WIDTH as int, 0),
            r.wf(),
    {
        let mut obstacles: Vec<Obstacle> = Vec::new();
        obstacles.push(Obstacle::new(SCREEN_WIDTH, 0));
        State {
            mode: GameMode::Menu,
            player: Player::new(START_X, START_Y),
            frame_time: 0,
            obstacles,
            score: 0,
            frame_count: 0,
        }
    }

    /// Starts a new run.
    pub fn restart(&mut self)
        ensures
            restarted(*old(self), *final(self)),
            final(self).wf(),
    {
        let mut obstacles: Vec<Obstacle> = Vec::new();
        let mut i: usize = 0;
        while i < RESTART_OBSTACLES
            invariant
                i <= RESTART_OBSTACLES,
                obstacles@.len() == i,
                forall|j: int|
                    0 <= j < i ==> spawned_ahead(#[trigger] obstacles@[j], START_X as int, 0)
                        && obstacles@[j].wf(),
            decreases RESTART_OBSTACLES - i,
        {
            obstacles.push(Obstacle::new(START_X, 0));
            i = i + 1;
        }
        self.player = Player::new(START_X, START_Y);
        self.obstacles = obstacles;
        self.score = 0;
        self.frame_time = 0;
        self.mode = GameMode::Playing;
    }

    /// One frame of play, `elapsed_us` microseconds long, with `key` pressed.
    pub fn play(&mut self, elapsed_us: u64, key: Option<Key>) -> (r: Frame)
        requires
            old(self).wf(),
            old(self).has_room(elapsed_us),
        ensures
            played(*old(self), *final(self), elapsed_us, key, r),
            final(self).wf(),
    {
        let ticked = self.frame_time + elapsed_us > FRAME_DURATION_US;
        if ticked {
            self.frame_time = 0;
            self.frame_count = self.frame_count + 1;
            self.player.gravity_and_move();
        } else {
            self.frame_time = self.frame_time + elapsed_us;
        }
        match key {
            Some(Key::Space) => self.player.flap(),
            _ => {},
        }
        let shown_player = self.player.render();
        let bars = scene(&self.obstacles, self.player.x);
        let shown_score = self.score;
        let (rest, hit) = sweep(&self.obstacles, &self.player);
        proof {
            self.obstacles@.lemma_filter_len(ahead_of(self.player.x as int));
        }
        let passed = self.obstacles.len() - rest.len();
        self.score = self.score + passed as u64;
        self.obstacles = rest;
        if hit {
            self.mode = GameMode::End;
        }
        if ticked && self.frame_count % SPAWN_INTERVAL == 0 {
            let fresh = Obstacle::new(self.player.x, self.score);
            let ghost before = self.obstacles@;
            self.obstacles.push(fresh);
            assert(self.obstacles@.drop_last() =~= before);
        }
        if self.player.y as i64 + half(self.player.height) as i64 >= SCREEN_HEIGHT as i64 {
            self.mode = GameMode::End;
        }
        Frame { screen: Screen::Playing { player: shown_player, bars, score: shown_score }, quit: false }
    }

    /// Whether the numbers of a frame of play that adds `elapsed_us`
    /// microseconds fit their machine types.
    pub fn room_for(&self, elapsed_us: u64) -> (r: bool)
        ensures
            r == self.has_room(elapsed_us),
    {
        if elapsed_us > u64::MAX - self.frame_time || self.frame_count == u64::MAX {
            return false;
        }
        if self.player.x >= i32::MAX - 2 * SCREEN_WIDTH || self.player.y < i32::MIN + 2
            || self.player.y > i32::MAX - 2 {
            return false;
        }
        if self.obstacles.len() as u64 > u64::MAX - self.score {
            return false;
        }
        let mut i: usize = 0;
        while i < self.obstacles.len()
            invariant
                0 <= i <= self.obstacles@.len(),
                forall|j: int|
                    0 <= j < i ==> i32::MIN + 1 <= #[trigger] self.obstacles@[j].x - self.player.x
                        <= i32::MAX,
            decreases self.obstacles@.len() - i,
        {
            let d = self.obstacles[i].x as i64 - self.player.x as i64;
            if d < i32::MIN as i64 + 1 || d > i32::MAX as i64 {
                return false;
            }
            i = i + 1;
        }
        true
    }

    /// Answers `key` on the menu or the end screen.
    fn answer(&mut self, key: Option<Key>) -> (quit: bool)
        requires
            old(self).wf(),
        ensures
            answered(*old(self), *final(self), key, quit),
            final(self).wf(),
    {
        match key {
            Some(Key::P) => {
                self.restart();
                false
            },
            Some(Key::Q) => true,
            _ => false,
        }
    }

    /// One frame of the title screen, with `key` pressed.
    pub fn main_menu(&mut self, key: Option<Key>) -> (r: Frame)
        requires
            old(self).wf(),
        ensures
            r.screen == Screen::Menu,
            answered(*old(self), *final(self), key, r.quit),
            final(self).wf(),
    {
        let quit = self.answer(key);
        Frame { screen: Screen::Menu, quit }
    }

    /// One frame of the end screen, with `key` pressed. It shows the points
    /// of the run that ended.
    pub fn dead(&mut self, key: Option<Key>) -> (r: Frame)
        requires
            old(self).wf(),
        ensures
            r.screen == (Screen::Dead { score: old(self).score }),
            answered(*old(self), *final(self), key, r.quit),
            final(self).wf(),
    {
        let score = self.score;
        let quit = self.answer(key);
        Frame { screen: Screen::Dead { score }, quit }
    }

    /// One frame, `elapsed_us` microseconds long, with `key` pressed: the
    /// screen of the current mode handles it.
    pub fn tick(&mut self, elapsed_us: u64, key: Option<Key>) -> (r: Frame)
        requires
            old(self).wf(),
            old(self).mode == GameMode::Playing ==> old(self).has_room(elapsed_us),
        ensures
            old(self).mode == GameMode::Menu ==> r.screen == Screen::Menu && answered(
                *old(self),
                *final(self),
                key,
                r.quit,
            ),
            old(self).mode == GameMode::End ==> r.screen == (Screen::Dead { score: old(self).score })
                && answered(*old(self), *final(self), key, r.quit),
            old(self).mode == GameMode::Playing ==> played(
                *old(self),
                *final(self),
                elapsed_us,
                key,
                r,
            ),
            final(self).wf(),
    {
        match self.mode {
            GameMode::Menu => self.main_menu(key),
            GameMode::Playing => self.play(elapsed_us, key),
            GameMode::End => self.dead(key),
        }
    }
}

/// A frame of play never lowers the score.
pub proof fn lemma_score_never_drops(o: State, n: State, elapsed: u64, key: Option<Key>, r: Frame)
    requires
        played(o, n, elapsed, key, r),
    ensures
        n.score >= o.score,
{
    o.obstacles@.lemma_filter_len(ahead_of(n.player.x as int));
}

/// The number of ticks among those that take the count from `start` to
/// `start + n` that bring a new obstacle.
pub open spec fn spawns_over(start: int, n: nat) -> int
    decreases n,
{
    if n == 0 {
        0
    } else {
        spawns_over(start, (n - 1) as nat) + if spawn_due(start + n) {
            1int
        } else {
            0int
        }
    }
}

/// Frame `k` of a run is one of play in which a tick runs and no obstacle is
/// passed.
pub open spec fn quiet_tick(
    states: Seq<State>,
    elapsed: Seq<u64>,
    keys: Seq<Option<Key>>,
    frames: Seq<Frame>,
    k: int,
) -> bool {
    &&& played(states[k], states[k + 1], elapsed[k], keys[k], frames[k])
    &&& states[k].ticks(elapsed[k])
    &&& kept(states[k].obstacles@, states[k + 1].player.x as int) == states[k].obstacles@
}

/// In a frame of play without a flap, the player's speed does not drop, and
/// it stays within the terminal speed: only a flap slows the fall.
pub proof fn lemma_speed_drops_only_by_flap(
    o: State,
    n: State,
    elapsed: u64,
    key: Option<Key>,
    r: Frame,
)
    requires
        o.wf(),
        played(o, n, elapsed, key, r),
        key != Some(Key::Space),
    ensures
        o.player.velocity <= n.player.velocity <= TERMINAL_VELOCITY,
{
}

proof fn lemma_none_passed(s: Seq<Obstacle>, px: int)
    requires
        forall|j: int| 0 <= j < s.len() ==> (#[trigger] s[j]).x >= px,
    ensures
        kept(s, px) == s,
    decreases s.len(),
{
    reveal(Seq::filter);
    if s.len() > 0 {
        lemma_none_passed(s.drop_last(), px);
        assert(s.drop_last().push(s.last()) =~= s);
    }
}

proof fn lemma_one_passed(s: Seq<Obstacle>, px: int, i: int)
    requires
        0 <= i < s.len(),
        s[i].x < px,
        forall|j: int| 0 <= j < s.len() && j != i ==> (#[trigger] s[j]).x >= px,
    ensures
        kept(s, px).len() == s.len() - 1,
    decreases s.len(),
{
    reveal(Seq::filter);
    if i == s.len() - 1 {
        lemma_none_passed(s.drop_last(), px);
    } else {
        lemma_one_passed(s.drop_last(), px, i);
    }
}

/// After a frame of play in which the player has gone past an obstacle, that
/// obstacle is gone; where it is the only one passed, the score rose by
/// exactly one.
pub proof fn lemma_passed_obstacle_leaves(
    o: State,
    n: State,
    elapsed: u64,
    key: Option<Key>,
    r: Frame,
    i: int,
)
    requires
        played(o, n, elapsed, key, r),
        0 <= i < o.obstacles@.len(),
        n.player.x > o.obstacles@[i].x,
    ensures
        !n.obstacles@.contains(o.obstacles@[i]),
        (forall|j: int|
            0 <= j < o.obstacles@.len() && j != i ==> n.player.x <= (#[trigger] o.obstacles@[j]).x)
            ==> n.score == o.score + 1,
{
    let gone = o.obstacles@[i];
    let rest = kept(o.obstacles@, n.player.x as int);
    assert forall|k: int| 0 <= k < rest.len() implies rest[k] != gone by {
        o.obstacles@.lemma_filter_pred(ahead_of(n.player.x as int), k);
    }
    assert forall|k: int| 0 <= k < n.obstacles@.len() implies n.obstacles@[k] != gone by {
        if n.obstacles@ != rest && k < rest.len() {
            assert(n.obstacles@[k] == n.obstacles@.drop_last()[k]);
        }
    }
    if forall|j: int|
        0 <= j < o.obstacles@.len() && j != i ==> n.player.x <= (#[trigger] o.obstacles@[j]).x {
        lemma_one_passed(o.obstacles@, n.player.x as int, i);
    }
}

proof fn lemma_spawns_over_closed(start: nat, n: nat)
    ensures
        spawns_over(start as int, n) == (start + n) / 60 - start / 60,
    decreases n,
{
    if n > 0 {
        lemma_spawns_over_closed(start, (n - 1) as nat);
    }
}

proof fn lemma_run_spawns(
    states: Seq<State>,
    elapsed: Seq<u64>,
    keys: Seq<Option<Key>>,
    frames: Seq<Frame>,
    m: int,
)
    requires
        0 <= m < states.len(),
        elapsed.len() + 1 == states.len(),
        keys.len() + 1 == states.len(),
        frames.len() + 1 == states.len(),
        forall|k: int| 0 <= k < m ==> #[trigger] quiet_tick(states, elapsed, keys, frames, k),
    ensures
        states[m].frame_count == states[0].frame_count + m,
        states[m].obstacles@.len() == states[0].obstacles@.len() + spawns_over(
            states[0].frame_count as int,
            m as nat,
        ),
    decreases m,
{
    if m > 0 {
        lemma_run_spawns(states, elapsed, keys, frames, m - 1);
        assert(quiet_tick(states, elapsed, keys, frames, m - 1));
    }
}

/// Over any sixty frames of play in a row, each of which runs a tick and
/// passes no obstacle, exactly one new obstacle appears.
pub proof fn lemma_spawn_cadence(
    states: Seq<State>,
    elapsed: Seq<u64>,
    keys: Seq<Option<Key>>,
    frames: Seq<Frame>,
)
    requires
        states.len() == SPAWN_INTERVAL + 1,
        elapsed.len() == SPAWN_INTERVAL,
        keys.len() == SPAWN_INTERVAL,
        frames.len() == SPAWN_INTERVAL,
        forall|k: int|
            0 <= k < SPAWN_INTERVAL ==> #[trigger] quiet_tick(states, elapsed, keys, frames, k),
    ensures
        states[SPAWN_INTERVAL as int].obstacles@.len() == states[0].obstacles@.len() + 1,
{
    lemma_run_spawns(states, elapsed, keys, frames, SPAWN_INTERVAL as int);
    lemma_spawns_over_closed(states[0].frame_count as nat, SPAWN_INTERVAL as nat);
}

} // verus!
