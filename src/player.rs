use vstd::prelude::*;
use crate::frame::{Drawable, Frame, NUM_COLS, put};
use crate::invaders::{Invader, Invaders, killed, live_at, live_cells_distinct, shot_at};
use crate::timer::{Timer, ticked};

verus! {

/// Time a shot takes to climb one row.
pub const SHOT_STEP_MS: u64 = 50;

/// Least time between two shots.
pub const COOLDOWN_MS: u64 = 200;

/// The row the player moves along.
pub const PLAYER_ROW: usize = 19;

pub const PLAYER_GLYPH: char = 'A';

pub const SHOT_GLYPH: char = '|';

/// A projectile climbing up its column; `progress_ms` is the time spent on
/// its current row.
#[derive(Clone, Copy, Debug, PartialEq, Eq)]
pub struct Shot {
    pub x: usize,
    pub y: usize,
    pub progress_ms: u64,
}

/// `s` after `delta` milliseconds, or `None` once it has left the grid
/// above the top row.
pub open spec fn advanced_shot(s: Shot, delta: u64) -> Option<Shot> {
    let total = s.progress_ms + delta;
    let rows = total / (SHOT_STEP_MS as int);
    if rows > s.y {
        None
    } else {
        Some(Shot { x: s.x, y: (s.y - rows) as usize, progress_ms: (total % (SHOT_STEP_MS as int)) as u64 })
    }
}

/// The first `n` shots after `delta` milliseconds, those that left the grid removed.
pub open spec fn advanced_upto(shots: Seq<Shot>, delta: u64, n: int) -> Seq<Shot>
    decreases n,
{
    if n <= 0 {
        Seq::empty()
    } else {
        let before = advanced_upto(shots, delta, n - 1);
        match advanced_shot(shots[n - 1], delta) {
            Some(s) => before.push(s),
            None => before,
        }
    }
}

/// Whether one of `shots` shares a cell with a live invader.
pub open spec fn any_hit(shots: Seq<Shot>, army: Seq<Invader>) -> bool {
    exists|k: int| 0 <= k < shots.len() && live_at(army, #[trigger] shots[k].x as int, shots[k].y as int)
}

/// The first `n` shots that do not share a cell with a live invader, in order.
pub open spec fn missed_upto(shots: Seq<Shot>, army: Seq<Invader>, n: int) -> Seq<Shot>
    decreases n,
{
    if n <= 0 {
        Seq::empty()
    } else {
        let before = missed_upto(shots, army, n - 1);
        if live_at(army, shots[n - 1].x as int, shots[n - 1].y as int) {
            before
        } else {
            before.push(shots[n - 1])
        }
    }
}

/// The frame `cells` with the first `n` shots painted in.
pub open spec fn paint_shots(cells: Seq<char>, shots: Seq<Shot>, n: int) -> Seq<char>
    decreases n,
{
    if n <= 0 {
        cells
    } else {
        put(paint_shots(cells, shots, n - 1), shots[n - 1].x as int, shots[n - 1].y as int, SHOT_GLYPH)
    }
}

/// The player as a mathematical value.
pub struct PlayerView {
    pub x: usize,
    pub y: usize,
    pub shots: Seq<Shot>,
    pub cooldown: Timer,
}

pub open spec fn player_wf(v: PlayerView) -> bool {
    &&& v.x < NUM_COLS
    &&& v.y == PLAYER_ROW
    &&& v.cooldown.wf()
    &&& v.cooldown.duration_ms == COOLDOWN_MS
    &&& forall|i: int| 0 <= i < v.shots.len() ==> (#[trigger] v.shots[i]).progress_ms < SHOT_STEP_MS
}

pub open spec fn moved_left(v: PlayerView) -> PlayerView {
    if v.x > 0 { PlayerView { x: (v.x - 1) as usize, ..v } } else { v }
}

pub open spec fn moved_right(v: PlayerView) -> PlayerView {
    if v.x + 1 < NUM_COLS { PlayerView { x: (v.x + 1) as usize, ..v } } else { v }
}

/// The player after pressing fire, and whether a shot left.
pub open spec fn shot_spec(v: PlayerView) -> (PlayerView, bool) {
    if v.cooldown.is_ready() {
        (
            PlayerView {
                shots: v.shots.push(Shot { x: v.x, y: v.y, progress_ms: 0 }),
                cooldown: Timer::new_spec(COOLDOWN_MS),
                ..v
            },
            true,
        )
    } else {
        (v, false)
    }
}

/// The player after `delta` milliseconds.
pub open spec fn updated(v: PlayerView, delta: u64) -> PlayerView {
    PlayerView {
        cooldown: ticked(v.cooldown, delta),
        shots: advanced_upto(v.shots, delta, v.shots.len() as int),
        ..v
    }
}

/// The ship, its cooldown and its shots in flight.
pub struct Player {
    pub x: usize,
    pub y: usize,
    pub shots: Vec<Shot>,
    pub cooldown: Timer,
}

impl Player {
    pub open spec fn view(&self) -> PlayerView {
        PlayerView { x: self.x, y: self.y, shots: self.shots@, cooldown: self.cooldown }
    }

    pub open spec fn wf(&self) -> bool {
        player_wf(self.view())
    }

    /// A player in the middle of the bottom row, ready to fire.
    pub fn new() -> (p: Player)
        ensures
            p.wf(),
            p.x == NUM_COLS / 2,
            p.shots@.len() == 0,
            p.cooldown.is_ready(),
    {
        Player {
            x: NUM_COLS / 2,
            y: PLAYER_ROW,
            shots: Vec::new(),
            cooldown: Timer { duration_ms: COOLDOWN_MS, elapsed_ms: COOLDOWN_MS },
        }
    }

    /// One column left; nothing at the left wall.
    pub fn move_left(&mut self)
        requires
            old(self).wf(),
        ensures
            final(self).view() == moved_left(old(self).view()),
            final(self).wf(),
    {
        if self.x > 0 {
            self.x -= 1;
        }
    }

    /// One column right; nothing at the right wall.
    pub fn move_right(&mut self)
        requires
            old(self).wf(),
        ensures
            final(self).view() == moved_right(old(self).view()),
            final(self).wf(),
    {
        if self.x + 1 < NUM_COLS {
            self.x += 1;
        }
        assert(self.view().shots == old(self).view().shots);
    }

    /// Fires a shot from the ship's own cell if the cooldown has run out,
    /// and starts the cooldown again; returns whether a shot left.
    pub fn shoot(&mut self) -> (fired: bool)
        requires
            old(self).wf(),
        ensures
            (final(self).view(), fired) == shot_spec(old(self).view()),
            final(self).wf(),
    {
        if self.cooldown.ready() {
            self.shots.push(Shot { x: self.x, y: self.y, progress_ms: 0 });
            self.cooldown = Timer::new(COOLDOWN_MS);
            assert forall|i: int| 0 <= i < self.shots@.len() implies (#[trigger] self.shots@[i]).progress_ms
                < SHOT_STEP_MS by {
                if i < old(self).shots@.len() {
                    assert(old(self).view().shots[i] == self.shots@[i]);
                }
            }
            true
        } else {
            false
        }
    }

    /// Advances the cooldown and every shot by `delta` milliseconds; a shot
    /// that climbs above the top row is removed.
    pub fn update(&mut self, delta: u64)
        requires
            old(self).wf(),
        ensures
            final(self).view() == updated(old(self).view(), delta),
            final(self).wf(),
    {
        self.cooldown.tick(delta);
        let mut kept: Vec<Shot> = Vec::new();
        let mut i: usize = 0;
        while i < self.shots.len()
            invariant
                i <= self.shots@.len(),
                self.shots@ == old(self).shots@,
                player_wf(old(self).view()),
                kept@ == advanced_upto(self.shots@, delta, i as int),
                forall|j: int| 0 <= j < kept@.len() ==> (#[trigger] kept@[j]).progress_ms < SHOT_STEP_MS,
            decreases self.shots@.len() - i,
        {
            let s = self.shots[i];
            assert(old(self).view().shots[i as int] == s);
            let part = s.progress_ms + delta % SHOT_STEP_MS;
            let rows = delta / SHOT_STEP_MS + part / SHOT_STEP_MS;
            assert(rows == (s.progress_ms + delta) / (SHOT_STEP_MS as int)) by (nonlinear_arith)
                requires
                    part == s.progress_ms + delta % 50,
                    rows == delta / 50 + part / 50,
                    SHOT_STEP_MS == 50,
            ;
            assert(part % SHOT_STEP_MS == (s.progress_ms + delta) % (SHOT_STEP_MS as int)) by (nonlinear_arith)
                requires
                    part == s.progress_ms + delta % 50,
                    SHOT_STEP_MS == 50,
            ;
            if rows <= s.y as u64 {
                kept.push(Shot { x: s.x, y: s.y - rows as usize, progress_ms: part % SHOT_STEP_MS });
            }
            i += 1;
        }
        self.shots = kept;
    }

    /// Removes every shot that shares a cell with a live invader and kills
    /// those invaders; returns whether any shot hit. All shots on one cell
    /// are spent together, and each invader dies at most once.
    pub fn detect_hits(&mut self, invaders: &mut Invaders) -> (hit: bool)
        requires
            old(self).wf(),
            old(invaders).wf(),
        ensures
            hit == any_hit(old(self).shots@, old(invaders).army@),
            final(self).shots@ == missed_upto(old(self).shots@, old(invaders).army@, old(self).shots@.len() as int),
            final(self).x == old(self).x,
            final(self).y == old(self).y,
            final(self).cooldown == old(self).cooldown,
            final(invaders).army@ == killed(old(invaders).army@, old(self).shots@),
            final(invaders).moving_right == old(invaders).moving_right,
            final(invaders).move_timer == old(invaders).move_timer,
            final(self).wf(),
            final(invaders).wf(),
    {
        let mut kept: Vec<Shot> = Vec::new();
        let mut hit = false;
        let mut i: usize = 0;
        while i < self.shots.len()
            invariant
                i <= self.shots@.len(),
                self.shots@ == old(self).shots@,
                *invaders == *old(invaders),
                player_wf(old(self).view()),
                kept@ == missed_upto(self.shots@, invaders.army@, i as int),
                forall|j: int| 0 <= j < kept@.len() ==> (#[trigger] kept@[j]).progress_ms < SHOT_STEP_MS,
                hit == exists|k: int|
                    0 <= k < i && live_at(invaders.army@, #[trigger] self.shots@[k].x as int, self.shots@[k].y as int),
            decreases self.shots@.len() - i,
        {
            let s = self.shots[i];
            assert(old(self).view().shots[i as int] == s);
            if invaders.live_at(s.x, s.y) {
                hit = true;
            } else {
                kept.push(s);
            }
            i += 1;
        }
        invaders.kill_hit(&self.shots);
        self.shots = kept;
        hit
    }

    /// Paints the shots, then the ship, into `frame`.
    pub fn paint(&self, frame: &mut Frame)
        requires
            old(frame).wf(),
        ensures
            final(frame).wf(),
            final(frame).cells@ == put(
                paint_shots(old(frame).cells@, self.shots@, self.shots@.len() as int),
                self.x as int,
                self.y as int,
                PLAYER_GLYPH,
            ),
    {
        let mut i: usize = 0;
        while i < self.shots.len()
            invariant
                i <= self.shots@.len(),
                frame.wf(),
                frame.cells@ == paint_shots(old(frame).cells@, self.shots@, i as int),
            decreases self.shots@.len() - i,
        {
            frame.set(self.shots[i].x, self.shots[i].y, SHOT_GLYPH);
            i += 1;
        }
        frame.set(self.x, self.y, PLAYER_GLYPH);
    }
}

impl Drawable for Player {
    open spec fn drawn(&self, cells: Seq<char>) -> Seq<char> {
        put(paint_shots(cells, self.shots@, self.shots@.len() as int), self.x as int, self.y as int, PLAYER_GLYPH)
    }

    fn draw(&self, frame: &mut Frame) {
        self.paint(frame);
    }
}

/// An input that reaches the player between two frames.
#[derive(Clone, Copy, Debug, PartialEq, Eq)]
pub enum PlayerInput {
    Left,
    Right,
    Fire,
    Elapsed(u64),
}

/// The player after each input of `inputs` in turn.
pub open spec fn after_inputs(v: PlayerView, inputs: Seq<PlayerInput>) -> PlayerView
    decreases inputs.len(),
{
    if inputs.len() == 0 {
        v
    } else {
        let w = after_inputs(v, inputs.drop_last());
        match inputs.last() {
            PlayerInput::Left => moved_left(w),
            PlayerInput::Right => moved_right(w),
            PlayerInput::Fire => shot_spec(w).0,
            PlayerInput::Elapsed(delta) => updated(w, delta),
        }
    }
}

proof fn lemma_steps_keep_wf(v: PlayerView, input: PlayerInput)
    requires
        player_wf(v),
    ensures
        player_wf(match input {
            PlayerInput::Left => moved_left(v),
            PlayerInput::Right => moved_right(v),
            PlayerInput::Fire => shot_spec(v).0,
            PlayerInput::Elapsed(delta) => updated(v, delta),
        }),
{
    match input {
        PlayerInput::Fire => {
            let w = shot_spec(v).0;
            assert forall|i: int| 0 <= i < w.shots.len() implies (#[trigger] w.shots[i]).progress_ms
                < SHOT_STEP_MS by {
                if v.cooldown.is_ready() && i < v.shots.len() {
                    assert(v.shots[i] == w.shots[i]);
                }
            }
        },
        PlayerInput::Elapsed(delta) => {
            lemma_advanced_progress(v.shots, delta, v.shots.len() as int);
        },
        _ => {},
    }
}

proof fn lemma_advanced_progress(shots: Seq<Shot>, delta: u64, n: int)
    requires
        0 <= n <= shots.len(),
    ensures
        forall|i: int| 0 <= i < advanced_upto(shots, delta, n).len() ==> (#[trigger] advanced_upto(shots, delta, n)[i]).progress_ms < SHOT_STEP_MS,
    decreases n,
{
    if n > 0 {
        lemma_advanced_progress(shots, delta, n - 1);
        let before = advanced_upto(shots, delta, n - 1);
        let w = advanced_upto(shots, delta, n);
        assert forall|i: int| 0 <= i < w.len() implies (#[trigger] w[i]).progress_ms < SHOT_STEP_MS by {
            if i < before.len() {
                assert(w[i] == before[i]);
            }
        }
    }
}

/// Whatever moves, shots and waits the player goes through, the ship stays
/// on a column of the grid.
pub proof fn lemma_player_stays_on_grid(v: PlayerView, inputs: Seq<PlayerInput>)
    requires
        player_wf(v),
    ensures
        player_wf(after_inputs(v, inputs)),
        0 <= after_inputs(v, inputs).x <= NUM_COLS - 1,
    decreases inputs.len(),
{
    if inputs.len() > 0 {
        lemma_player_stays_on_grid(v, inputs.drop_last());
        lemma_steps_keep_wf(after_inputs(v, inputs.drop_last()), inputs.last());
    }
}

/// After a shot leaves, another press of fire within the cooldown spawns
/// nothing, and one once the cooldown has run out spawns a second shot.
pub proof fn lemma_one_shot_per_cooldown(v: PlayerView, delta: u64)
    requires
        player_wf(v),
        shot_spec(v).1,
    ensures
        shot_spec(v).0.shots.len() == v.shots.len() + 1,
        delta < COOLDOWN_MS ==> !shot_spec(updated(shot_spec(v).0, delta)).1,
        delta < COOLDOWN_MS ==> updated(shot_spec(v).0, delta).shots.len() == shot_spec(
            updated(shot_spec(v).0, delta),
        ).0.shots.len(),
        delta >= COOLDOWN_MS ==> shot_spec(updated(shot_spec(v).0, delta)).1,
        delta >= COOLDOWN_MS ==> shot_spec(updated(shot_spec(v).0, delta)).0.shots.len() == updated(
            shot_spec(v).0,
            delta,
        ).shots.len() + 1,
{
}

/// A shot standing on a live invader's cell, alone in flight, kills exactly
/// that invader and is spent; no dead invader comes back to life.
pub proof fn lemma_hit_kills_one(army: Seq<Invader>, s: Shot)
    requires
        live_cells_distinct(army),
        live_at(army, s.x as int, s.y as int),
    ensures
        missed_upto(seq![s], army, 1).len() == 0,
        exists|i: int|
            0 <= i < army.len() && army[i].alive && !(#[trigger] killed(army, seq![s])[i]).alive && forall|
                j: int,
            |
                0 <= j < army.len() && j != i ==> (#[trigger] killed(army, seq![s])[j]).alive == army[j].alive,
{
    let i = choose|i: int| 0 <= i < army.len() && #[trigger] army[i].alive && army[i].x == s.x && army[i].y == s.y;
    let k = killed(army, seq![s]);
    assert(seq![s][0] == s);
    assert(missed_upto(seq![s], army, 0).len() == 0);
    assert(!k[i].alive);
    assert forall|j: int| 0 <= j < army.len() && j != i implies (#[trigger] k[j]).alive == army[j].alive by {
        if army[j].alive && shot_at(seq![s], army[j].x as int, army[j].y as int) {
            let m = choose|m: int| 0 <= m < 1 && #[trigger] seq![s][m].x == army[j].x && seq![s][m].y == army[j].y;
            assert(seq![s][m] == s);
        }
    }
}

/// Shots never bring an invader back to life.
pub proof fn lemma_no_revival(army: Seq<Invader>, shots: Seq<Shot>)
    ensures
        forall|i: int| 0 <= i < army.len() && (#[trigger] killed(army, shots)[i]).alive ==> army[i].alive,
{
}

} // verus!
