//! The simulation model of the side-scrolling game: the player's jump arc,
//! the obstacle queue, collisions, score and highscore.
use vstd::prelude::*;

verus! {

/// Distance every obstacle moves towards the player on each tick.
pub const OBSTACLE_SPEED: u16 = 1;

/// The column the player stands in; the player spans it and the next one.
pub const PLAYER_COLUMN: u16 = 2;

/// Terminal extent sampled once at startup.
#[derive(Clone, Copy, Debug, PartialEq, Eq, Structural)]
pub struct Frame {
    pub width: u16,
    pub height: u16,
}

impl Frame {
    /// Wide enough to spawn an obstacle and tall enough for a ground line.
    pub open spec fn wf(&self) -> bool {
        self.width >= 2 && self.height >= 3
    }

    /// Highest offset the player may take above the ground line.
    pub open spec fn top(&self) -> int {
        self.height - 3
    }

    /// The column where new obstacles appear.
    pub open spec fn spawn(&self) -> int {
        self.width - 2
    }
}

/// What one tick of the simulation ended in.
#[derive(Clone, Copy, Debug, PartialEq, Eq, Structural)]
pub enum TickOutcome {
    Continue,
    /// The player was hit; `score` is the score reached before the reset.
    GameOver { score: u64 },
}

/// The mutable game state.
#[derive(Debug)]
pub struct GameState {
    pub player_y: i32,
    pub player_velocity: i32,
    pub falling: bool,
    /// Obstacle columns, front (nearest the player) first.
    pub obstacles: Vec<u16>,
    pub score: u64,
    pub highscore: u64,
    pub obstacle_speed: u16,
    pub cheats: bool,
    /// How many obstacles are placed at the spawn column after a game over.
    pub reseed_count: u32,
}

/// The mathematical view of a `GameState`.
pub struct GameModel {
    pub player_y: int,
    pub velocity: int,
    pub falling: bool,
    pub obstacles: Seq<int>,
    pub score: int,
    pub highscore: int,
    pub speed: int,
    pub cheats: bool,
    pub reseed: int,
}

impl View for GameState {
    type V = GameModel;

    open spec fn view(&self) -> GameModel {
        GameModel {
            player_y: self.player_y as int,
            velocity: self.player_velocity as int,
            falling: self.falling,
            obstacles: self.obstacles@.map_values(|p: u16| p as int),
            score: self.score as int,
            highscore: self.highscore as int,
            speed: self.obstacle_speed as int,
            cheats: self.cheats,
            reseed: self.reseed_count as int,
        }
    }
}

pub open spec fn max(a: int, b: int) -> int {
    if a >= b { a } else { b }
}

/// `a - b`, but never below zero.
pub open spec fn sat_sub(a: int, b: int) -> int {
    if a >= b { a - b } else { 0 }
}

/// Every obstacle moved `speed` columns towards zero.
pub open spec fn shift_all(obs: Seq<int>, speed: int) -> Seq<int> {
    obs.map_values(|p: int| sat_sub(p, speed))
}

/// The front obstacle has reached column zero and is recycled this tick.
pub open spec fn recycles(obs: Seq<int>) -> bool {
    obs.len() > 0 && obs[0] == 0
}

/// The obstacle queue after one tick's advance.
pub open spec fn advanced(obs: Seq<int>, speed: int, spawn: int) -> Seq<int> {
    if recycles(obs) {
        shift_all(obs.drop_first(), speed).push(spawn)
    } else {
        shift_all(obs, speed)
    }
}

/// The score after one more recycled obstacle; it saturates at `u64::MAX`.
pub open spec fn bumped(score: int) -> int {
    if score < u64::MAX { score + 1 } else { score }
}

/// The horizontal span `[p, p + 1]` of an obstacle meets the player's span
/// `[PLAYER_COLUMN, PLAYER_COLUMN + 1]`.
pub open spec fn spans_overlap(p: int) -> bool {
    p <= PLAYER_COLUMN + 1 && PLAYER_COLUMN <= p + 1
}

/// Collision: cheats are off and some obstacle's span meets the player's.
pub open spec fn collides(obs: Seq<int>, cheats: bool) -> bool {
    !cheats && exists|i: int| 0 <= i < obs.len() && spans_overlap(#[trigger] obs[i])
}

/// One tick of gravity: position moves by the velocity, then gravity adds one
/// to the velocity; leaving `[0, top]` clamps the position and ends the jump.
pub open spec fn physics(y: int, v: int, falling: bool, top: int) -> (int, int, bool) {
    if !falling {
        (y, v, false)
    } else if y + v > top {
        (top, 0, false)
    } else if y + v < 0 {
        (0, 0, false)
    } else {
        (y + v, v + 1, true)
    }
}

/// The state after obstacles advanced and physics ran, before the collision check.
pub open spec fn moved(m: GameModel, f: Frame) -> GameModel {
    let rec = recycles(m.obstacles);
    let score = if rec { bumped(m.score) } else { m.score };
    let ph = physics(m.player_y, m.velocity, m.falling, f.top());
    GameModel {
        player_y: ph.0,
        velocity: ph.1,
        falling: ph.2,
        obstacles: advanced(m.obstacles, m.speed, f.spawn()),
        score,
        highscore: max(m.highscore, score),
        ..m
    }
}

/// The state after a game over: score and player back to the start, the
/// queue holding `reseed` fresh obstacles; the highscore is kept.
pub open spec fn reset_model(m: GameModel, f: Frame) -> GameModel {
    GameModel {
        player_y: 0,
        velocity: 0,
        falling: false,
        obstacles: Seq::new(m.reseed as nat, |i: int| f.spawn()),
        score: 0,
        ..m
    }
}

/// One full tick of the simulation.
pub open spec fn step(m: GameModel, f: Frame) -> GameModel {
    let a = moved(m, f);
    if collides(a.obstacles, a.cheats) { reset_model(a, f) } else { a }
}

/// The outcome that one tick reports.
pub open spec fn step_outcome(m: GameModel, f: Frame) -> TickOutcome {
    let a = moved(m, f);
    if collides(a.obstacles, a.cheats) {
        TickOutcome::GameOver { score: a.score as u64 }
    } else {
        TickOutcome::Continue
    }
}

/// The invariants of a game state within a frame.
pub open spec fn model_wf(m: GameModel, f: Frame) -> bool {
    &&& f.wf()
    &&& 0 <= m.player_y <= f.top()
    &&& !m.falling ==> m.velocity == 0
    &&& m.falling ==> -1 <= m.velocity <= f.top() + 1
    &&& forall|i: int| 0 <= i < m.obstacles.len() ==> 0 <= #[trigger] m.obstacles[i] <= f.spawn()
    &&& 0 <= m.score <= m.highscore <= u64::MAX
    &&& m.speed > 0
}

impl GameState {
    pub open spec fn wf(&self, f: Frame) -> bool {
        model_wf(self@, f)
    }

    /// A fresh game: the player resting on the ground and `max_obstacles`
    /// obstacles at the spawn column. With `reseed` a game over places that
    /// many obstacles again; without it the queue stays empty after one.
    pub fn new(frame: &Frame, max_obstacles: u32, cheats: bool, reseed: bool) -> (r: GameState)
        requires
            frame.wf(),
        ensures
            r.wf(*frame),
            r@.player_y == 0,
            r@.velocity == 0,
            !r@.falling,
            r@.obstacles == Seq::new(max_obstacles as nat, |i: int| frame.spawn()),
            r@.score == 0,
            r@.highscore == 0,
            r@.speed == OBSTACLE_SPEED,
            r@.cheats == cheats,
            r@.reseed == (if reseed { max_obstacles as int } else { 0 }),
    {
        GameState {
            player_y: 0,
            player_velocity: 0,
            falling: false,
            obstacles: spawn_queue(frame, max_obstacles),
            score: 0,
            highscore: 0,
            obstacle_speed: OBSTACLE_SPEED,
            cheats,
            reseed_count: if reseed { max_obstacles } else { 0 },
        }
    }

    /// Starts a jump when the player is not already in the air.
    pub fn jump(&mut self)
        ensures
            !old(self).falling ==> final(self)@ == (GameModel { falling: true, velocity: -1, ..old(self)@ }),
            old(self).falling ==> final(self)@ == old(self)@,
    {
        if !self.falling {
            self.falling = true;
            self.player_velocity = -1;
        }
    }

    /// Whether the player currently collides with an obstacle.
    pub fn collision(&self) -> (r: bool)
        ensures
            r == collides(self@.obstacles, self.cheats),
    {
        if self.cheats {
            return false;
        }
        let n = self.obstacles.len();
        let mut i: usize = 0;
        while i < n
            invariant
                n == self.obstacles@.len(),
                i <= n,
                !self.cheats,
                forall|j: int| 0 <= j < i ==> !spans_overlap(#[trigger] self.obstacles@[j] as int),
            decreases n - i,
        {
            let p = self.obstacles[i];
            if 1 <= p && p <= 3 {
                assert(self@.obstacles[i as int] == p as int);
                assert(spans_overlap(self@.obstacles[i as int]));
                assert(0 <= i < self@.obstacles.len());
                return true;
            }
            i = i + 1;
        }
        assert forall|j: int| 0 <= j < self@.obstacles.len() implies !spans_overlap(#[trigger] self@.obstacles[j]) by {
            assert(self@.obstacles[j] == self.obstacles@[j] as int);
        }
        false
    }

    /// Advances the game by one tick: obstacles move and the front one is
    /// recycled when it reached column zero, gravity acts on a jumping player,
    /// and a collision ends the run, which resets the state but keeps the
    /// highscore.
    pub fn update(&mut self, frame: &Frame) -> (r: TickOutcome)
        requires
            old(self).wf(*frame),
        ensures
            final(self)@ == step(old(self)@, *frame),
            r == step_outcome(old(self)@, *frame),
            final(self).wf(*frame),
    {
        proof {
            lemma_step_wf(self@, *frame);
        }
        let ghost m0 = self@;
        let recycle = self.obstacles.len() > 0 && self.obstacles[0] == 0;
        if recycle {
            assert(recycles(m0.obstacles));
            self.obstacles.remove(0);
            assert(self@.obstacles =~= m0.obstacles.drop_first());
        } else {
            assert(!recycles(m0.obstacles));
        }
        self.shift_obstacles();
        if recycle {
            let ghost before = self@.obstacles;
            self.obstacles.push(frame.width - 2);
            assert(self@.obstacles =~= before.push(frame.spawn()));
            if self.score < u64::MAX {
                self.score = self.score + 1;
            }
        }
        if self.highscore < self.score {
            self.highscore = self.score;
        }
        if self.falling {
            let y = self.player_y + self.player_velocity;
            let top = frame.height as i32 - 3;
            if y > top {
                self.player_y = top;
                self.player_velocity = 0;
                self.falling = false;
            } else if y < 0 {
                self.player_y = 0;
                self.player_velocity = 0;
                self.falling = false;
            } else {
                self.player_y = y;
                self.player_velocity = self.player_velocity + 1;
            }
        }
        assert(self@ == moved(m0, *frame));
        if self.collision() {
            let score = self.score;
            self.reset(frame);
            TickOutcome::GameOver { score }
        } else {
            TickOutcome::Continue
        }
    }

    /// Clears the run after a game over; the highscore is kept.
    fn reset(&mut self, frame: &Frame)
        requires
            frame.wf(),
        ensures
            final(self)@ == reset_model(old(self)@, *frame),
    {
        self.player_y = 0;
        self.player_velocity = 0;
        self.falling = false;
        self.score = 0;
        self.obstacles = spawn_queue(frame, self.reseed_count);
    }

    /// Moves every obstacle `obstacle_speed` columns towards zero.
    fn shift_obstacles(&mut self)
        ensures
            final(self)@ == (GameModel {
                obstacles: shift_all(old(self)@.obstacles, old(self)@.speed),
                ..old(self)@
            }),
    {
        let n = self.obstacles.len();
        let ghost orig = self.obstacles@;
        let mut i: usize = 0;
        while i < n
            invariant
                n == self.obstacles@.len(),
                i <= n,
                orig.len() == n,
                forall|j: int| 0 <= j < i ==> #[trigger] self.obstacles@[j] as int == sat_sub(orig[j] as int, self.obstacle_speed as int),
                forall|j: int| i <= j < n ==> #[trigger] self.obstacles@[j] == orig[j],
                self.player_y == old(self).player_y,
                self.player_velocity == old(self).player_velocity,
                self.falling == old(self).falling,
                self.score == old(self).score,
                self.highscore == old(self).highscore,
                self.obstacle_speed == old(self).obstacle_speed,
                self.cheats == old(self).cheats,
                self.reseed_count == old(self).reseed_count,
                orig == old(self).obstacles@,
            decreases n - i,
        {
            let p = self.obstacles[i];
            self.obstacles[i] = p.saturating_sub(self.obstacle_speed);
            i = i + 1;
        }
        assert(self@.obstacles =~= shift_all(old(self)@.obstacles, self.obstacle_speed as int));
    }
}

/// One tick keeps a well-formed state well-formed: the player stays within
/// `[0, top]`, obstacles within `[0, spawn]`, and the score below the highscore.
pub proof fn lemma_step_wf(m: GameModel, f: Frame)
    requires
        model_wf(m, f),
    ensures
        model_wf(moved(m, f), f),
        model_wf(step(m, f), f),
{
    let a = moved(m, f);
    assert forall|i: int| 0 <= i < a.obstacles.len() implies 0 <= #[trigger] a.obstacles[i] <= f.spawn() by {
        if recycles(m.obstacles) {
            if i < m.obstacles.len() - 1 {
                assert(m.obstacles.drop_first()[i] == m.obstacles[i + 1]);
            }
        } else {
            assert(0 <= m.obstacles[i] <= f.spawn());
        }
    }
    let r = reset_model(a, f);
    assert forall|i: int| 0 <= i < r.obstacles.len() implies 0 <= #[trigger] r.obstacles[i] <= f.spawn() by {
    }
}

/// `count` obstacles, all at the spawn column.
fn spawn_queue(frame: &Frame, count: u32) -> (r: Vec<u16>)
    requires
        frame.wf(),
    ensures
        r@.map_values(|p: u16| p as int) == Seq::new(count as nat, |i: int| frame.spawn()),
{
    let mut v: Vec<u16> = Vec::new();
    let mut k: u32 = 0;
    while k < count
        invariant
            k <= count,
            frame.wf(),
            v@.len() == k,
            forall|j: int| 0 <= j < k ==> #[trigger] v@[j] == frame.width - 2,
        decreases count - k,
    {
        v.push(frame.width - 2);
        k = k + 1;
    }
    assert(v@.map_values(|p: u16| p as int) =~= Seq::new(count as nat, |i: int| frame.spawn()));
    v
}


/// The state after `n` ticks.
pub open spec fn run(m: GameModel, f: Frame, n: nat) -> GameModel
    decreases n,
{
    if n == 0 { m } else { step(run(m, f, (n - 1) as nat), f) }
}

/// The largest of the starting highscore and every score reached during the
/// first `n` ticks (the score a run had when it ended included).
pub open spec fn peak_score(m: GameModel, f: Frame, n: nat) -> int
    decreases n,
{
    if n == 0 {
        m.highscore
    } else {
        max(peak_score(m, f, (n - 1) as nat), moved(run(m, f, (n - 1) as nat), f).score)
    }
}

/// An obstacle at column zero is recycled by a tick that ends in no
/// collision: it leaves the front of the queue, the others move on, a new one
/// is appended at the spawn column, the length is kept, and the score grows
/// by exactly one.
pub proof fn law_obstacle_recycling(m: GameModel, f: Frame)
    requires
        model_wf(m, f),
        m.obstacles.len() > 0,
        m.obstacles[0] == 0,
        m.score < u64::MAX,
        !collides(moved(m, f).obstacles, m.cheats),
    ensures
        step(m, f).obstacles == shift_all(m.obstacles.drop_first(), m.speed).push(f.spawn()),
        step(m, f).obstacles.len() == m.obstacles.len(),
        step(m, f).obstacles.last() == f.spawn(),
        step(m, f).score == m.score + 1,
        step(m, f).highscore == max(m.highscore, m.score + 1),
{
}

/// With cheats off the player collides exactly when some obstacle stands in
/// column 1, 2 or 3; with cheats on it never collides.
pub proof fn law_collision_rule(obs: Seq<int>, cheats: bool)
    ensures
        cheats ==> !collides(obs, cheats),
        !cheats ==> (collides(obs, cheats) <==> exists|i: int|
            0 <= i < obs.len() && 1 <= #[trigger] obs[i] <= 3),
{
}

/// A jump starts from any resting state as a well-formed arc, and each tick
/// of the arc applies the velocity to the position and then adds one to it,
/// until the position would leave `[0, top]`: there it is clamped, the jump
/// ends and the velocity returns to zero. The position never leaves `[0, top]`.
pub proof fn law_jump_arc(m: GameModel, f: Frame)
    requires
        model_wf(m, f),
    ensures
        !m.falling ==> model_wf(GameModel { falling: true, velocity: -1, ..m }, f),
        m.falling && 0 <= m.player_y + m.velocity <= f.top() ==> {
            &&& moved(m, f).player_y == m.player_y + m.velocity
            &&& moved(m, f).velocity == m.velocity + 1
            &&& moved(m, f).falling
        },
        m.falling && m.player_y + m.velocity > f.top() ==> {
            &&& moved(m, f).player_y == f.top()
            &&& moved(m, f).velocity == 0
            &&& !moved(m, f).falling
        },
        m.falling && m.player_y + m.velocity < 0 ==> {
            &&& moved(m, f).player_y == 0
            &&& moved(m, f).velocity == 0
            &&& !moved(m, f).falling
        },
        0 <= step(m, f).player_y <= f.top(),
{
    lemma_step_wf(m, f);
}

/// Whatever the velocity, one tick leaves the player within `[0, top]`, and a
/// player who is not jumping afterwards has velocity zero, with or without a
/// collision.
pub proof fn law_no_overshoot(m: GameModel, f: Frame)
    requires
        f.wf(),
        0 <= m.player_y <= f.top(),
        !m.falling ==> m.velocity == 0,
    ensures
        0 <= step(m, f).player_y <= f.top(),
        !step(m, f).falling ==> step(m, f).velocity == 0,
{
}

/// One tick sets the highscore to the larger of the old highscore and the
/// score the tick reached (one more when the front obstacle is recycled),
/// also when a collision then resets the score.
pub proof fn law_highscore_step(m: GameModel, f: Frame)
    ensures
        step(m, f).highscore == max(m.highscore, if recycles(m.obstacles) { bumped(m.score) } else { m.score }),
        step(m, f).highscore >= m.highscore,
{
}

/// Over any number of ticks the highscore never decreases, stays at least the
/// score, and equals the largest score reached so far (or the starting
/// highscore, if that is larger), across game overs too.
pub proof fn law_highscore(m: GameModel, f: Frame, n: nat)
    requires
        model_wf(m, f),
    ensures
        model_wf(run(m, f, n), f),
        run(m, f, n).highscore == peak_score(m, f, n),
        run(m, f, n).score <= run(m, f, n).highscore,
        forall|k: nat| k <= n ==> #[trigger] run(m, f, k).highscore <= run(m, f, n).highscore,
    decreases n,
{
    if n > 0 {
        let p = (n - 1) as nat;
        law_highscore(m, f, p);
        lemma_step_wf(run(m, f, p), f);
        assert forall|k: nat| k <= n implies #[trigger] run(m, f, k).highscore <= run(m, f, n).highscore by {
            if k < n {
                assert(run(m, f, k).highscore <= run(m, f, p).highscore);
            }
        }
    }
}

} // verus!
