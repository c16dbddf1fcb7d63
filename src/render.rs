use vstd::prelude::*;
use crate::frame::{Frame, NUM_CELLS, NUM_ROWS};

verus! {

/// One terminal instruction: move the cursor to `(x, y)` and print `ch`.
#[derive(Clone, Copy, Debug, PartialEq, Eq)]
pub struct CellWrite {
    pub x: usize,
    pub y: usize,
    pub ch: char,
}

/// The instruction that repaints cell number `i` of `cells`.
pub open spec fn write_of(cells: Seq<char>, i: int) -> CellWrite {
    CellWrite { x: (i / NUM_ROWS as int) as usize, y: (i % NUM_ROWS as int) as usize, ch: cells[i] }
}

/// The instructions for the first `n` cells: each cell that differs between
/// `prev` and `curr`, or every cell when `force` holds, in cell order.
pub open spec fn writes_upto(prev: Seq<char>, curr: Seq<char>, force: bool, n: int) -> Seq<CellWrite>
    decreases n,
{
    if n <= 0 {
        Seq::empty()
    } else {
        let before = writes_upto(prev, curr, force, n - 1);
        if force || prev[n - 1] != curr[n - 1] {
            before.push(write_of(curr, n - 1))
        } else {
            before
        }
    }
}

/// Number of positions below `n` at which `prev` and `curr` differ.
pub open spec fn count_diff(prev: Seq<char>, curr: Seq<char>, n: int) -> nat
    decreases n,
{
    if n <= 0 {
        0
    } else {
        count_diff(prev, curr, n - 1) + if prev[n - 1] != curr[n - 1] { 1nat } else { 0nat }
    }
}

/// The instructions that turn a screen showing `prev` into one showing `curr`.
pub fn diff(prev: &Frame, curr: &Frame, force: bool) -> (r: Vec<CellWrite>)
    requires
        prev.wf(),
        curr.wf(),
    ensures
        r@ == writes_upto(prev.cells@, curr.cells@, force, NUM_CELLS as int),
{
    let mut out: Vec<CellWrite> = Vec::new();
    let mut i: usize = 0;
    while i < NUM_CELLS
        invariant
            i <= NUM_CELLS,
            prev.wf(),
            curr.wf(),
            out@ == writes_upto(prev.cells@, curr.cells@, force, i as int),
        decreases NUM_CELLS - i,
    {
        let c = curr.cells[i];
        if force || prev.cells[i] != c {
            out.push(CellWrite { x: i / NUM_ROWS, y: i % NUM_ROWS, ch: c });
        }
        i += 1;
    }
    out
}

/// The number of instructions for two frames is the number of cells in which
/// they differ, or the whole grid when a full redraw is forced.
pub proof fn lemma_write_count(prev: Seq<char>, curr: Seq<char>, force: bool, n: int)
    requires
        0 <= n <= prev.len(),
        n <= curr.len(),
    ensures
        writes_upto(prev, curr, force, n).len() == if force { n as nat } else { count_diff(prev, curr, n) },
    decreases n,
{
    if n > 0 {
        lemma_write_count(prev, curr, force, n - 1);
    }
}

/// Every instruction repaints a cell with its character in `curr`.
pub proof fn lemma_writes_show_curr(prev: Seq<char>, curr: Seq<char>, force: bool, n: int, j: int)
    requires
        0 <= n <= prev.len(),
        n <= curr.len(),
        0 <= j < writes_upto(prev, curr, force, n).len(),
    ensures
        exists|i: int| 0 <= i < n && writes_upto(prev, curr, force, n)[j] == write_of(curr, i)
            && (force || prev[i] != curr[i]),
    decreases n,
{
    let w = writes_upto(prev, curr, force, n);
    let before = writes_upto(prev, curr, force, n - 1);
    if j < before.len() {
        lemma_writes_show_curr(prev, curr, force, n - 1, j);
        let i = choose|i: int| 0 <= i < n - 1 && before[j] == write_of(curr, i) && (force || prev[i] != curr[i]);
        assert(w[j] == write_of(curr, i));
    } else {
        assert(w[j] == write_of(curr, n - 1));
    }
}

/// Drawing the same frame again needs no instruction.
pub proof fn lemma_same_frame_no_writes(cells: Seq<char>, n: int)
    requires
        0 <= n <= cells.len(),
    ensures
        writes_upto(cells, cells, false, n).len() == 0,
    decreases n,
{
    if n > 0 {
        lemma_same_frame_no_writes(cells, n - 1);
    }
}

} // verus!
