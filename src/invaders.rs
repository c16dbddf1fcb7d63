use vstd::prelude::*;
use crate::frame::{Drawable, Frame, NUM_COLS, put};
use crate::player::Shot;
use crate::timer::{Timer, ticked};

verus! {

/// Most invaders a formation may hold.
pub const MAX_INVADERS: usize = 800;

/// Shortest time between two moves of the formation.
pub const MIN_MOVE_MS: u64 = 100;

/// Time added between two moves for each invader still alive.
pub const PER_INVADER_MS: u64 = 25;

/// A live invader at this row or below has reached the player.
pub const BOTTOM_ROW: usize = 19;

/// The glyph of a live invader.
pub const INVADER_GLYPH: char = 'x';

#[derive(Clone, Copy, Debug, PartialEq, Eq)]
pub struct Invader {
    pub x: usize,
    pub y: usize,
    pub alive: bool,
}

/// The time between two moves when `alive` invaders remain.
pub open spec fn move_interval(alive: nat) -> u64 {
    (MIN_MOVE_MS + PER_INVADER_MS * alive) as u64
}

/// Number of live invaders among the first `n` of `army`.
pub open spec fn alive_upto(army: Seq<Invader>, n: int) -> nat
    decreases n,
{
    if n <= 0 {
        0
    } else {
        alive_upto(army, n - 1) + if army[n - 1].alive { 1nat } else { 0nat }
    }
}

pub open spec fn alive_count(army: Seq<Invader>) -> nat {
    alive_upto(army, army.len() as int)
}

/// Whether no invader is alive.
pub open spec fn all_dead(army: Seq<Invader>) -> bool {
    forall|i: int| 0 <= i < army.len() ==> !(#[trigger] army[i].alive)
}

/// Whether a live invader has come down to `BOTTOM_ROW`.
pub open spec fn at_bottom(army: Seq<Invader>) -> bool {
    exists|i: int| 0 <= i < army.len() && #[trigger] army[i].alive && army[i].y >= BOTTOM_ROW
}

/// Whether a step in the given direction would take a live invader off the grid.
pub open spec fn blocked(army: Seq<Invader>, moving_right: bool) -> bool {
    exists|i: int|
        0 <= i < army.len() && #[trigger] army[i].alive && (if moving_right {
            army[i].x + 1 >= NUM_COLS
        } else {
            army[i].x == 0
        })
}

/// Whether a live invader stands at `(x, y)`.
pub open spec fn live_at(army: Seq<Invader>, x: int, y: int) -> bool {
    exists|i: int| 0 <= i < army.len() && #[trigger] army[i].alive && army[i].x == x && army[i].y == y
}

/// Every live invader one column further in the given direction.
pub open spec fn shifted(army: Seq<Invader>, moving_right: bool) -> Seq<Invader> {
    Seq::new(
        army.len(),
        |i: int|
            if army[i].alive {
                Invader {
                    x: (if moving_right { army[i].x + 1 } else { army[i].x - 1 }) as usize,
                    ..army[i]
                }
            } else {
                army[i]
            },
    )
}

/// Whether a live invader stands on the last row that a `usize` can number.
pub open spec fn at_floor(army: Seq<Invader>) -> bool {
    exists|i: int| 0 <= i < army.len() && #[trigger] army[i].alive && army[i].y == usize::MAX
}

/// Every live invader one row lower; the formation stays where it is if one
/// of them could go no lower.
pub open spec fn descended(army: Seq<Invader>) -> Seq<Invader> {
    if at_floor(army) {
        army
    } else {
        Seq::new(
            army.len(),
            |i: int| if army[i].alive { Invader { y: (army[i].y + 1) as usize, ..army[i] } } else { army[i] },
        )
    }
}

/// The formation as a mathematical value.
pub struct FormationView {
    pub army: Seq<Invader>,
    pub moving_right: bool,
    pub timer: Timer,
}

/// The formation after `delta` milliseconds, and whether it moved.
pub open spec fn update_spec(v: FormationView, delta: u64) -> (FormationView, bool) {
    let t = ticked(v.timer, delta);
    if !t.is_ready() {
        (FormationView { timer: t, ..v }, false)
    } else {
        let timer = Timer { duration_ms: move_interval(alive_count(v.army)), elapsed_ms: 0 };
        if blocked(v.army, v.moving_right) {
            (FormationView { army: descended(v.army), moving_right: !v.moving_right, timer }, true)
        } else {
            (FormationView { army: shifted(v.army, v.moving_right), moving_right: v.moving_right, timer }, true)
        }
    }
}

/// The grid of invaders, moving together.
pub struct Invaders {
    pub army: Vec<Invader>,
    pub moving_right: bool,
    pub move_timer: Timer,
}

impl Invaders {
    pub open spec fn view(&self) -> FormationView {
        FormationView { army: self.army@, moving_right: self.moving_right, timer: self.move_timer }
    }

    /// At most `MAX_INVADERS`, all on the grid's columns, no two live ones
    /// in one cell, and a running timer.
    pub open spec fn wf(&self) -> bool {
        formation_wf(self.view())
    }
}

pub open spec fn formation_wf(v: FormationView) -> bool {
    &&& v.army.len() <= MAX_INVADERS
    &&& forall|i: int| 0 <= i < v.army.len() ==> #[trigger] v.army[i].x < NUM_COLS
    &&& live_cells_distinct(v.army)
    &&& v.timer.wf()
}

/// No two live invaders share a cell.
pub open spec fn live_cells_distinct(army: Seq<Invader>) -> bool {
    forall|i: int, j: int|
        0 <= i < army.len() && 0 <= j < army.len() && i != j && #[trigger] army[i].alive
            && #[trigger] army[j].alive ==> (army[i].x != army[j].x || army[i].y != army[j].y)
}

/// Whether the cells are on the grid's columns, few enough, and pairwise distinct.
pub open spec fn valid_cells(cells: Seq<(usize, usize)>) -> bool {
    &&& cells.len() <= MAX_INVADERS
    &&& forall|i: int| 0 <= i < cells.len() ==> #[trigger] cells[i].0 < NUM_COLS
    &&& forall|i: int, j: int| 0 <= i < j < cells.len() ==> #[trigger] cells[i] != #[trigger] cells[j]
}

/// A live invader in each cell.
pub open spec fn army_of(cells: Seq<(usize, usize)>) -> Seq<Invader> {
    cells.map_values(|c: (usize, usize)| Invader { x: c.0, y: c.1, alive: true })
}

/// The frame `cells` with every live invader among the first `n` painted in.
pub open spec fn paint_army(cells: Seq<char>, army: Seq<Invader>, n: int) -> Seq<char>
    decreases n,
{
    if n <= 0 {
        cells
    } else {
        let before = paint_army(cells, army, n - 1);
        if army[n - 1].alive {
            put(before, army[n - 1].x as int, army[n - 1].y as int, INVADER_GLYPH)
        } else {
            before
        }
    }
}

impl Invaders {
    /// A formation of live invaders in the given cells, moving right, or
    /// `None` where the cells are not valid.
    pub fn from_cells(cells: &Vec<(usize, usize)>) -> (r: Option<Invaders>)
        ensures
            r is Some <==> valid_cells(cells@),
            r matches Some(f) ==> f.wf() && f.army@ == army_of(cells@) && f.moving_right
                && f.move_timer == Timer::new_spec(move_interval(cells@.len())),
    {
        if cells.len() > MAX_INVADERS {
            return None;
        }
        let mut army: Vec<Invader> = Vec::new();
        let mut i: usize = 0;
        while i < cells.len()
            invariant
                i <= cells@.len() <= MAX_INVADERS,
                army@ == army_of(cells@.subrange(0, i as int)),
                valid_cells(cells@.subrange(0, i as int)),
            decreases cells@.len() - i,
        {
            let (x, y) = cells[i];
            if x >= NUM_COLS {
                assert(cells@[i as int].0 >= NUM_COLS);
                return None;
            }
            let mut j: usize = 0;
            while j < i
                invariant
                    j <= i < cells@.len(),
                    (x, y) == cells@[i as int],
                    forall|k: int| 0 <= k < j ==> cells@[k] != cells@[i as int],
                decreases i - j,
            {
                if cells[j].0 == x && cells[j].1 == y {
                    assert(!valid_cells(cells@)) by {
                        assert(cells@[j as int] == cells@[i as int]);
                    }
                    return None;
                }
                j += 1;
            }
            army.push(Invader { x, y, alive: true });
            i += 1;
            assert(cells@.subrange(0, i as int).drop_last() == cells@.subrange(0, i - 1));
            assert(army@ == army_of(cells@.subrange(0, i as int)));
        }
        assert(cells@.subrange(0, i as int) == cells@);
        let n = cells.len() as u64;
        let f = Invaders { army, moving_right: true, move_timer: Timer::new(MIN_MOVE_MS + PER_INVADER_MS * n) };
        proof {
            lemma_army_of_alive(cells@);
        }
        Some(f)
    }
}

impl Invaders {
    /// Number of invaders still alive.
    pub fn count_alive(&self) -> (r: usize)
        requires
            self.wf(),
        ensures
            r == alive_count(self.army@),
    {
        let mut n: usize = 0;
        let mut i: usize = 0;
        while i < self.army.len()
            invariant
                i <= self.army@.len() <= MAX_INVADERS,
                n <= i,
                n == alive_upto(self.army@, i as int),
            decreases self.army@.len() - i,
        {
            if self.army[i].alive {
                n += 1;
            }
            i += 1;
        }
        n
    }

    fn is_blocked(&self) -> (r: bool)
        requires
            self.wf(),
        ensures
            r == blocked(self.army@, self.moving_right),
    {
        let mut i: usize = 0;
        while i < self.army.len()
            invariant
                i <= self.army@.len(),
                forall|j: int|
                    0 <= j < i && #[trigger] self.army@[j].alive ==> !(if self.moving_right {
                        self.army@[j].x + 1 >= NUM_COLS
                    } else {
                        self.army@[j].x == 0
                    }),
            decreases self.army@.len() - i,
        {
            let a = self.army[i];
            if a.alive && (if self.moving_right { a.x >= NUM_COLS - 1 } else { a.x == 0 }) {
                return true;
            }
            i += 1;
        }
        false
    }

    fn descend(&mut self)
        requires
            old(self).wf(),
        ensures
            final(self).army@ == descended(old(self).army@),
            final(self).moving_right == old(self).moving_right,
            final(self).move_timer == old(self).move_timer,
    {
        let ghost a = self.army@;
        let mut i: usize = 0;
        while i < self.army.len()
            invariant
                i <= self.army@.len(),
                forall|j: int| 0 <= j < i && #[trigger] self.army@[j].alive ==> self.army@[j].y < usize::MAX,
            decreases self.army@.len() - i,
        {
            if self.army[i].alive && self.army[i].y == usize::MAX {
                return;
            }
            i += 1;
        }
        assert(!at_floor(a));
        let mut i: usize = 0;
        while i < self.army.len()
            invariant
                i <= self.army@.len(),
                self.army@.len() == a.len(),
                !at_floor(a),
                self.moving_right == old(self).moving_right,
                self.move_timer == old(self).move_timer,
                forall|j: int| 0 <= j < i ==> self.army@[j] == descended(a)[j],
                forall|j: int| i <= j < a.len() ==> self.army@[j] == a[j],
            decreases a.len() - i,
        {
            let mut inv = self.army[i];
            if inv.alive {
                assert(a[i as int].alive);
                inv.y = inv.y + 1;
                self.army.set(i, inv);
            }
            i += 1;
        }
        assert(self.army@ == descended(a));
    }

    fn shift(&mut self)
        requires
            old(self).wf(),
            !blocked(old(self).army@, old(self).moving_right),
        ensures
            final(self).army@ == shifted(old(self).army@, old(self).moving_right),
            final(self).moving_right == old(self).moving_right,
            final(self).move_timer == old(self).move_timer,
    {
        let ghost a = self.army@;
        let right = self.moving_right;
        let mut i: usize = 0;
        while i < self.army.len()
            invariant
                i <= self.army@.len(),
                self.army@.len() == a.len(),
                self.moving_right == right,
                right == old(self).moving_right,
                self.move_timer == old(self).move_timer,
                a == old(self).army@,
                formation_wf(old(self).view()),
                !blocked(a, right),
                forall|j: int| 0 <= j < i ==> self.army@[j] == shifted(a, right)[j],
                forall|j: int| i <= j < a.len() ==> self.army@[j] == a[j],
            decreases a.len() - i,
        {
            let mut inv = self.army[i];
            if inv.alive {
                assert(a[i as int].alive);
                if right {
                    inv.x = inv.x + 1;
                } else {
                    inv.x = inv.x - 1;
                }
                self.army.set(i, inv);
            }
            i += 1;
        }
        assert(self.army@ == shifted(a, right));
    }

    /// Advances the formation by `delta` milliseconds; returns whether it
    /// moved. When its timer runs out it steps one column in its direction,
    /// or, where that step would take a live invader off the grid, turns
    /// round and comes down one row instead. The next wait is shorter the
    /// fewer invaders remain alive.
    pub fn update(&mut self, delta: u64) -> (moved: bool)
        requires
            old(self).wf(),
        ensures
            (final(self).view(), moved) == update_spec(old(self).view(), delta),
            final(self).wf(),
    {
        let ghost v = self.view();
        self.move_timer.tick(delta);
        if !self.move_timer.ready() {
            return false;
        }
        let n = self.count_alive();
        proof {
            lemma_alive_upto_bound(self.army@, self.army@.len() as int);
        }
        self.move_timer = Timer::new(MIN_MOVE_MS + PER_INVADER_MS * n as u64);
        if self.is_blocked() {
            self.descend();
            self.moving_right = !self.moving_right;
            proof {
                lemma_descended_wf(v, self.view());
            }
        } else {
            self.shift();
            proof {
                lemma_shifted_wf(v, self.view());
            }
        }
        true
    }

    /// Whether no invader is alive.
    pub fn all_killed(&self) -> (r: bool)
        ensures
            r == all_dead(self.army@),
    {
        let mut i: usize = 0;
        while i < self.army.len()
            invariant
                i <= self.army@.len(),
                forall|j: int| 0 <= j < i ==> !(#[trigger] self.army@[j].alive),
            decreases self.army@.len() - i,
        {
            if self.army[i].alive {
                return false;
            }
            i += 1;
        }
        true
    }

    /// Whether a live invader has come down to `BOTTOM_ROW`.
    pub fn reached_bottom(&self) -> (r: bool)
        ensures
            r == at_bottom(self.army@),
    {
        let mut i: usize = 0;
        while i < self.army.len()
            invariant
                i <= self.army@.len(),
                forall|j: int| 0 <= j < i && #[trigger] self.army@[j].alive ==> self.army@[j].y < BOTTOM_ROW,
            decreases self.army@.len() - i,
        {
            if self.army[i].alive && self.army[i].y >= BOTTOM_ROW {
                return true;
            }
            i += 1;
        }
        false
    }

    /// Paints every live invader into `frame`.
    pub fn paint(&self, frame: &mut Frame)
        requires
            old(frame).wf(),
        ensures
            final(frame).wf(),
            final(frame).cells@ == paint_army(old(frame).cells@, self.army@, self.army@.len() as int),
    {
        let mut i: usize = 0;
        while i < self.army.len()
            invariant
                i <= self.army@.len(),
                frame.wf(),
                frame.cells@ == paint_army(old(frame).cells@, self.army@, i as int),
            decreases self.army@.len() - i,
        {
            let a = self.army[i];
            if a.alive {
                frame.set(a.x, a.y, INVADER_GLYPH);
            }
            i += 1;
        }
    }
}

impl Drawable for Invaders {
    open spec fn drawn(&self, cells: Seq<char>) -> Seq<char> {
        paint_army(cells, self.army@, self.army@.len() as int)
    }

    fn draw(&self, frame: &mut Frame) {
        self.paint(frame);
    }
}

/// Invaders per row of the starting formation.
pub const STARTING_COLS: usize = 18;

/// Rows of the starting formation.
pub const STARTING_ROWS: usize = 4;

/// Number of invaders in the starting formation.
pub const STARTING_INVADERS: usize = 72;

/// Cell of the `k`-th invader of the starting formation: row by row, on the
/// even columns from 2 to 36 of the even rows from 2 to 8.
pub open spec fn starting_cell(k: int) -> (usize, usize) {
    ((2 + 2 * (k % 18)) as usize, (2 + 2 * (k / 18)) as usize)
}

/// Whether cell `a` comes before cell `b`, row by row.
pub open spec fn before(a: (usize, usize), b: (usize, usize)) -> bool {
    a.1 < b.1 || (a.1 == b.1 && a.0 < b.0)
}

impl Invaders {
    /// The starting formation, moving right.
    pub fn new() -> (f: Invaders)
        ensures
            f.wf(),
            f.moving_right,
            f.army@.len() == STARTING_INVADERS,
            forall|k: int| 0 <= k < STARTING_INVADERS ==> #[trigger] f.army@[k] == (Invader {
                x: starting_cell(k).0,
                y: starting_cell(k).1,
                alive: true,
            }),
            f.move_timer == Timer::new_spec(move_interval(STARTING_INVADERS as nat)),
    {
        let mut cells: Vec<(usize, usize)> = Vec::new();
        let mut row: usize = 0;
        while row < STARTING_ROWS
            invariant
                row <= STARTING_ROWS,
                cells@.len() == STARTING_COLS * row,
                forall|k: int| 0 <= k < cells@.len() ==> #[trigger] cells@[k] == starting_cell(k),
                forall|k: int| 0 <= k < cells@.len() ==> (#[trigger] cells@[k]).0 < NUM_COLS && cells@[k].1 < 2 + 2 * row,
                forall|i: int, j: int| 0 <= i < j < cells@.len() ==> before(#[trigger] cells@[i], #[trigger] cells@[j]),
            decreases STARTING_ROWS - row,
        {
            let mut col: usize = 0;
            while col < STARTING_COLS
                invariant
                    row < STARTING_ROWS,
                    col <= STARTING_COLS,
                    cells@.len() == STARTING_COLS * row + col,
                    forall|k: int| 0 <= k < cells@.len() ==> #[trigger] cells@[k] == starting_cell(k),
                    forall|k: int| 0 <= k < cells@.len() ==> (#[trigger] cells@[k]).0 < NUM_COLS && before(
                        cells@[k],
                        ((2 + 2 * col) as usize, (2 + 2 * row) as usize),
                    ),
                    forall|i: int, j: int| 0 <= i < j < cells@.len() ==> before(#[trigger] cells@[i], #[trigger] cells@[j]),
                decreases STARTING_COLS - col,
            {
                let k = STARTING_COLS * row + col;
                assert((k as int) % 18 == col && (k as int) / 18 == row) by (nonlinear_arith)
                    requires
                        k == 18 * row + col,
                        col < 18,
                ;
                cells.push((2 + 2 * col, 2 + 2 * row));
                col += 1;
            }
            row += 1;
        }
        proof {
            assert forall|i: int, j: int| 0 <= i < j < cells@.len() implies #[trigger] cells@[i] != #[trigger] cells@[j] by {
                assert(before(cells@[i], cells@[j]));
            }
        }
        Invaders::from_cells(&cells).unwrap()
    }
}

/// Whether one of `shots` stands at `(x, y)`.
pub open spec fn shot_at(shots: Seq<Shot>, x: int, y: int) -> bool {
    exists|k: int| 0 <= k < shots.len() && #[trigger] shots[k].x == x && shots[k].y == y
}

/// `army` with every live invader that shares a cell with a shot killed.
pub open spec fn killed(army: Seq<Invader>, shots: Seq<Shot>) -> Seq<Invader> {
    Seq::new(
        army.len(),
        |i: int| Invader { alive: army[i].alive && !shot_at(shots, army[i].x as int, army[i].y as int), ..army[i] },
    )
}

impl Invaders {
    /// Whether a live invader stands at `(x, y)`.
    pub fn live_at(&self, x: usize, y: usize) -> (r: bool)
        ensures
            r == live_at(self.army@, x as int, y as int),
    {
        let mut i: usize = 0;
        while i < self.army.len()
            invariant
                i <= self.army@.len(),
                forall|j: int| 0 <= j < i && #[trigger] self.army@[j].alive ==> !(self.army@[j].x == x && self.army@[j].y == y),
            decreases self.army@.len() - i,
        {
            let a = self.army[i];
            if a.alive && a.x == x && a.y == y {
                return true;
            }
            i += 1;
        }
        false
    }

    /// Kills every live invader that shares a cell with one of `shots`.
    pub fn kill_hit(&mut self, shots: &Vec<Shot>)
        requires
            old(self).wf(),
        ensures
            final(self).army@ == killed(old(self).army@, shots@),
            final(self).moving_right == old(self).moving_right,
            final(self).move_timer == old(self).move_timer,
            final(self).wf(),
    {
        let ghost a = self.army@;
        let mut i: usize = 0;
        while i < self.army.len()
            invariant
                i <= self.army@.len(),
                self.army@.len() == a.len(),
                a == old(self).army@,
                self.moving_right == old(self).moving_right,
                self.move_timer == old(self).move_timer,
                forall|j: int| 0 <= j < i ==> self.army@[j] == killed(a, shots@)[j],
                forall|j: int| i <= j < a.len() ==> self.army@[j] == a[j],
            decreases a.len() - i,
        {
            let mut inv = self.army[i];
            if inv.alive {
                let mut k: usize = 0;
                let mut hit = false;
                while k < shots.len()
                    invariant
                        k <= shots@.len(),
                        inv == a[i as int],
                        hit == exists|m: int| 0 <= m < k && #[trigger] shots@[m].x == inv.x && shots@[m].y == inv.y,
                    decreases shots@.len() - k,
                {
                    if shots[k].x == inv.x && shots[k].y == inv.y {
                        hit = true;
                    }
                    k += 1;
                }
                if hit {
                    inv.alive = false;
                    self.army.set(i, inv);
                }
            }
            i += 1;
        }
        assert(self.army@ == killed(a, shots@));
        assert(formation_wf(self.view())) by {
            assert forall|i: int, j: int|
                0 <= i < self.army@.len() && 0 <= j < self.army@.len() && i != j && #[trigger] self.army@[i].alive
                    && #[trigger] self.army@[j].alive implies (self.army@[i].x != self.army@[j].x
                    || self.army@[i].y != self.army@[j].y) by {
                assert(a[i].alive && a[j].alive);
            }
        }
    }
}

/// Whether live invaders stand at both walls at once, so that the formation
/// cannot move sideways in either direction.
pub open spec fn spans_grid(army: Seq<Invader>) -> bool {
    blocked(army, true) && blocked(army, false)
}

/// On a tick where the formation moves, it turns round and comes down
/// exactly when a step in its direction would take a live invader off the
/// grid; otherwise it steps sideways and keeps its direction. Invaders keep
/// their alive flags either way.
pub proof fn lemma_turn_exactly_at_wall(v: FormationView, delta: u64)
    requires
        formation_wf(v),
        update_spec(v, delta).1,
    ensures
        update_spec(v, delta).0.moving_right != v.moving_right <==> blocked(v.army, v.moving_right),
        blocked(v.army, v.moving_right) ==> update_spec(v, delta).0.army == descended(v.army),
        !blocked(v.army, v.moving_right) ==> update_spec(v, delta).0.army == shifted(v.army, v.moving_right),
        forall|i: int| 0 <= i < v.army.len() ==> (#[trigger] update_spec(v, delta).0.army[i]).alive == v.army[i].alive,
{
}

/// After turning round at a wall, a formation that does not reach across the
/// whole grid moves sideways in its new direction on its next move.
pub proof fn lemma_resumes_after_turn(v: FormationView, d1: u64, d2: u64)
    requires
        formation_wf(v),
        update_spec(v, d1).1,
        blocked(v.army, v.moving_right),
        !spans_grid(v.army),
        update_spec(update_spec(v, d1).0, d2).1,
    ensures
        update_spec(update_spec(v, d1).0, d2).0.moving_right == !v.moving_right,
        update_spec(update_spec(v, d1).0, d2).0.army == shifted(descended(v.army), !v.moving_right),
{
    let w = update_spec(v, d1).0;
    assert(w.army == descended(v.army));
    if blocked(w.army, !v.moving_right) {
        let i = choose|i: int|
            0 <= i < w.army.len() && #[trigger] w.army[i].alive && (if !v.moving_right {
                w.army[i].x + 1 >= NUM_COLS
            } else {
                w.army[i].x == 0
            });
        assert(v.army[i].alive);
        assert(blocked(v.army, !v.moving_right));
    }
}

/// A lone invader on the rightmost column, moving right, turns round and
/// comes down one row on its next move instead of stepping further right.
pub proof fn lemma_lone_invader_turns_at_right_wall(v: FormationView, delta: u64, r: usize)
    requires
        formation_wf(v),
        v.army == seq![Invader { x: (NUM_COLS - 1) as usize, y: r, alive: true }],
        v.moving_right,
        r < usize::MAX,
        update_spec(v, delta).1,
    ensures
        update_spec(v, delta).0.army == seq![Invader { x: (NUM_COLS - 1) as usize, y: (r + 1) as usize, alive: true }],
        !update_spec(v, delta).0.moving_right,
{
    assert(v.army[0].alive);
    assert(blocked(v.army, true));
    assert(!at_floor(v.army));
    assert(descended(v.army) =~= seq![Invader { x: (NUM_COLS - 1) as usize, y: (r + 1) as usize, alive: true }]);
}

proof fn lemma_alive_upto_bound(army: Seq<Invader>, n: int)
    requires
        0 <= n <= army.len(),
    ensures
        alive_upto(army, n) <= n,
    decreases n,
{
    if n > 0 {
        lemma_alive_upto_bound(army, n - 1);
    }
}

proof fn lemma_descended_wf(v: FormationView, w: FormationView)
    requires
        formation_wf(v),
        w.army == descended(v.army),
        w.timer.wf(),
    ensures
        formation_wf(w),
{
    assert forall|i: int, j: int|
        0 <= i < w.army.len() && 0 <= j < w.army.len() && i != j && #[trigger] w.army[i].alive
            && #[trigger] w.army[j].alive implies (w.army[i].x != w.army[j].x || w.army[i].y != w.army[j].y) by {
        if !at_floor(v.army) {
            assert(v.army[i].alive && v.army[j].alive);
        }
    }
}

proof fn lemma_shifted_wf(v: FormationView, w: FormationView)
    requires
        formation_wf(v),
        !blocked(v.army, v.moving_right),
        w.army == shifted(v.army, v.moving_right),
        w.timer.wf(),
    ensures
        formation_wf(w),
{
    assert forall|i: int| 0 <= i < w.army.len() implies #[trigger] w.army[i].x < NUM_COLS by {
        if v.army[i].alive {
            assert(!(if v.moving_right { v.army[i].x + 1 >= NUM_COLS } else { v.army[i].x == 0 }));
        }
    }
    assert forall|i: int, j: int|
        0 <= i < w.army.len() && 0 <= j < w.army.len() && i != j && #[trigger] w.army[i].alive
            && #[trigger] w.army[j].alive implies (w.army[i].x != w.army[j].x || w.army[i].y != w.army[j].y) by {
        assert(v.army[i].alive && v.army[j].alive);
        assert(!(if v.moving_right { v.army[i].x + 1 >= NUM_COLS } else { v.army[i].x == 0 }));
        assert(!(if v.moving_right { v.army[j].x + 1 >= NUM_COLS } else { v.army[j].x == 0 }));
    }
}

proof fn lemma_army_of_alive(cells: Seq<(usize, usize)>)
    ensures
        alive_count(army_of(cells)) == cells.len(),
{
    let army = army_of(cells);
    assert forall|n: int| 0 <= n <= army.len() implies alive_upto(army, n) == n by {
        lemma_all_alive_upto(army, n);
    }
}

proof fn lemma_all_alive_upto(army: Seq<Invader>, n: int)
    requires
        0 <= n <= army.len(),
        forall|i: int| 0 <= i < army.len() ==> #[trigger] army[i].alive,
    ensures
        alive_upto(army, n) == n,
    decreases n,
{
    if n > 0 {
        lemma_all_alive_upto(army, n - 1);
    }
}

} // verus!
