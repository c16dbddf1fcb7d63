use vstd::prelude::*;

verus! {

/// Number of columns of every frame.
pub const NUM_COLS: usize = 40;

/// Number of rows of every frame.
pub const NUM_ROWS: usize = 20;

/// Number of cells of every frame.
pub const NUM_CELLS: usize = 800;

/// The character of an empty cell.
pub const BLANK: char = ' ';

/// Position of cell `(x, y)` in a frame's cell sequence (column after column).
pub open spec fn cell_index(x: int, y: int) -> int {
    x * NUM_ROWS + y
}

/// Whether `(x, y)` lies on the grid.
pub open spec fn in_bounds(x: int, y: int) -> bool {
    0 <= x < NUM_COLS && 0 <= y < NUM_ROWS
}

/// A fixed-size grid of display characters, stored column after column.
#[derive(Clone, Debug)]
pub struct Frame {
    pub cells: Vec<char>,
}

impl Frame {
    pub open spec fn wf(&self) -> bool {
        self.cells@.len() == NUM_CELLS
    }

    /// The character at `(x, y)`.
    pub open spec fn at(&self, x: int, y: int) -> char {
        self.cells@[cell_index(x, y)]
    }

    /// Writes `c` at `(x, y)`; a position off the grid is silently ignored.
    pub fn set(&mut self, x: usize, y: usize, c: char)
        requires
            old(self).wf(),
        ensures
            final(self).cells@ == put(old(self).cells@, x as int, y as int, c),
    {
        if x < NUM_COLS && y < NUM_ROWS {
            let i = x * NUM_ROWS + y;
            self.cells.set(i, c);
        }
    }

    /// The character at `(x, y)`, or `None` off the grid.
    pub fn get(&self, x: usize, y: usize) -> (r: Option<char>)
        requires
            self.wf(),
        ensures
            r == (if in_bounds(x as int, y as int) {
                Some(self.at(x as int, y as int))
            } else {
                None
            }),
    {
        if x < NUM_COLS && y < NUM_ROWS {
            Some(self.cells[x * NUM_ROWS + y])
        } else {
            None
        }
    }
}

/// `cells` with `c` written at `(x, y)`, unchanged if `(x, y)` is off the grid.
pub open spec fn put(cells: Seq<char>, x: int, y: int, c: char) -> Seq<char> {
    if in_bounds(x, y) {
        cells.update(cell_index(x, y), c)
    } else {
        cells
    }
}

/// The cells of a blank frame.
pub open spec fn blank_cells() -> Seq<char> {
    Seq::new(NUM_CELLS as nat, |i: int| BLANK)
}

/// A frame of blank cells.
pub fn new_frame() -> (f: Frame)
    ensures
        f.wf(),
        forall|i: int| 0 <= i < NUM_CELLS ==> f.cells@[i] == BLANK,
        f.cells@ == blank_cells(),
{
    let mut cells: Vec<char> = Vec::new();
    while cells.len() < NUM_CELLS
        invariant
            cells@.len() <= NUM_CELLS,
            forall|i: int| 0 <= i < cells@.len() ==> cells@[i] == BLANK,
        decreases NUM_CELLS - cells@.len(),
    {
        cells.push(BLANK);
    }
    assert(cells@ =~= blank_cells());
    Frame { cells }
}

/// Something that paints its current state into a frame.
pub trait Drawable {
    /// The cells of a frame after this entity has painted itself over `cells`.
    spec fn drawn(&self, cells: Seq<char>) -> Seq<char>;

    fn draw(&self, frame: &mut Frame)
        requires
            old(frame).wf(),
        ensures
            final(frame).wf(),
            final(frame).cells@ == self.drawn(old(frame).cells@),
    ;
}

} // verus!
