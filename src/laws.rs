//! Properties of the interpreter and the grid that hold for every input.

use vstd::prelude::*;

use crate::ansi::{lemma_run_push, lemma_step_wf, run, step, ParserView, State};
use crate::grid::{keep_last, GridView};
use crate::style::default_cell;

verus! {

/// Feeding `a` and then `b` ends in the same parser state and grid as
/// feeding `a + b` at once, so a sequence may be split at any byte.
pub proof fn resumable(p: ParserView, g: GridView, a: Seq<u8>, b: Seq<u8>)
    ensures
        run(p, g, a + b) == run(run(p, g, a).0, run(p, g, a).1, b),
    decreases b.len(),
{
    if b.len() == 0 {
        assert(a + b =~= a);
    } else {
        resumable(p, g, a, b.drop_last());
        assert((a + b).drop_last() =~= a + b.drop_last());
        assert((a + b).last() == b.last());
    }
}

/// Whatever bytes arrive, the grid stays well formed; in particular the
/// scrollback never holds more rows than its capacity.
pub proof fn scrollback_bounded(p: ParserView, g: GridView, bytes: Seq<u8>)
    requires
        g.wf(),
    ensures
        run(p, g, bytes).1.wf(),
        run(p, g, bytes).1.capacity == g.capacity,
        run(p, g, bytes).1.scrollback.len() <= g.capacity,
    decreases bytes.len(),
{
    if bytes.len() > 0 {
        scrollback_bounded(p, g, bytes.drop_last());
        let (p1, g1) = run(p, g, bytes.drop_last());
        lemma_step_wf(p1, g1, bytes.last());
    }
}

/// A newline on the last row with a full scrollback drops the oldest
/// scrollback row and appends the row that leaves the top.
pub proof fn scroll_evicts_oldest(g: GridView)
    requires
        g.wf(),
        g.capacity >= 1,
        g.scrollback.len() == g.capacity,
        g.cursor_y + 1 == g.rows,
    ensures
        g.newline().scrollback == g.scrollback.drop_first().push(g.cells[0]),
{
    assert(keep_last(g.scrollback.push(g.cells[0]), g.capacity) =~= g.scrollback.drop_first().push(
        g.cells[0],
    ));
}

/// ESC c sent to a parser at rest leaves the parser at rest and the grid as
/// a fresh grid of the same size: every cell empty, cursor home, default pen.
/// Only the scrollback, which clearing never touches, is kept.
pub proof fn full_reset(p: ParserView, g: GridView)
    requires
        p.state == State::Ground,
        g.wf(),
    ensures
        run(p, g, seq![0x1bu8, 0x63u8]).0.state == State::Ground,
        run(p, g, seq![0x1bu8, 0x63u8]).1 == (GridView {
            scrollback: g.scrollback,
            ..GridView::fresh(g.cols, g.rows, g.capacity)
        }),
{
    lemma_run_push(p, g, Seq::empty(), 0x1b);
    lemma_run_push(p, g, seq![0x1bu8], 0x63);
    assert(Seq::<u8>::empty().push(0x1b) =~= seq![0x1bu8]);
    assert(seq![0x1bu8].push(0x63) =~= seq![0x1bu8, 0x63u8]);
}

/// An explicit count of 0 counts as absent: ESC [ 0 A moves the cursor up
/// one row, exactly as ESC [ A does.
pub proof fn zero_count_is_default(p: ParserView, g: GridView)
    requires
        p.state == State::Ground,
        g.wf(),
    ensures
        run(p, g, seq![0x1bu8, 0x5bu8, 0x30u8, 0x41u8]).1 == g.move_cursor_relative(0, -1),
        run(p, g, seq![0x1bu8, 0x5bu8, 0x41u8]).1 == g.move_cursor_relative(0, -1),
{
    let s1 = seq![0x1bu8];
    let s2 = seq![0x1bu8, 0x5bu8];
    let s3 = seq![0x1bu8, 0x5bu8, 0x30u8];
    lemma_run_push(p, g, Seq::empty(), 0x1b);
    lemma_run_push(p, g, s1, 0x5b);
    lemma_run_push(p, g, s2, 0x30);
    lemma_run_push(p, g, s3, 0x41);
    lemma_run_push(p, g, s2, 0x41);
    assert(Seq::<u8>::empty().push(0x1b) =~= s1);
    assert(s1.push(0x5b) =~= s2);
    assert(s2.push(0x30) =~= s3);
    assert(s3.push(0x41) =~= seq![0x1bu8, 0x5bu8, 0x30u8, 0x41u8]);
    assert(s2.push(0x41) =~= seq![0x1bu8, 0x5bu8, 0x41u8]);
}

/// A cursor placed beyond the grid lands on the last column and row.
pub proof fn cursor_clamped(g: GridView, x: int, y: int)
    requires
        g.wf(),
        x >= g.cols,
        y >= g.rows,
    ensures
        g.move_cursor(x, y).cursor_x == g.cols - 1,
        g.move_cursor(x, y).cursor_y == g.rows - 1,
{
}

/// Shrinking a grid and growing it back to its size does not bring back
/// what lay outside the smaller size: those cells come back empty, while the
/// cells inside keep their content.
pub proof fn resize_truncates(g: GridView, cols: nat, rows: nat)
    requires
        g.wf(),
        1 <= cols <= g.cols,
        1 <= rows <= g.rows,
    ensures
        g.resize(cols, rows).resize(g.cols, g.rows).wf(),
        forall|x: int, y: int|
            0 <= x < g.cols && 0 <= y < g.rows ==> #[trigger] g.resize(cols, rows).resize(
                g.cols,
                g.rows,
            ).cells[y][x] == if x < cols && y < rows {
                g.cells[y][x]
            } else {
                default_cell()
            },
{
    crate::grid::lemma_ops_wf(g);
    crate::grid::lemma_ops_wf(g.resize(cols, rows));
}

/// The parser never stays stuck inside a sequence: from any state a BEL
/// byte brings it back to the ground state and leaves the grid as it was.
pub proof fn bel_returns_to_ground(p: ParserView, g: GridView)
    ensures
        step(p, g, 0x07).0.state == State::Ground,
        step(p, g, 0x07).1 == g,
{
}

} // verus!
