//! The terminal's screen: a matrix of cells, a cursor, a pen and a bounded
//! scrollback of rows pushed off the top.

use vstd::prelude::*;

use crate::style::{default_cell, default_style, Cell, CellStyle};

verus! {

/// Rows kept in the scrollback of a grid made by `Grid::new`.
pub const SCROLLBACK_LINES: usize = 10000;

/// The grid as mathematical values.
pub struct GridView {
    /// Visible rows, top first.
    pub cells: Seq<Seq<Cell>>,
    /// Rows pushed off the top, oldest first.
    pub scrollback: Seq<Seq<Cell>>,
    /// Most rows the scrollback keeps.
    pub capacity: nat,
    pub cols: nat,
    pub rows: nat,
    pub cursor_x: nat,
    pub cursor_y: nat,
    /// The pen: style of the next written cell.
    pub style: CellStyle,
    pub dirty: bool,
}

/// The rows of a matrix as sequences.
pub open spec fn rows_view(rows: Seq<Vec<Cell>>) -> Seq<Seq<Cell>> {
    Seq::new(rows.len(), |y: int| rows[y]@)
}

/// A row of `cols` empty cells.
pub open spec fn blank_row(cols: nat) -> Seq<Cell> {
    Seq::new(cols, |x: int| default_cell())
}

/// A screen of `rows` rows of `cols` empty cells.
pub open spec fn blank_screen(cols: nat, rows: nat) -> Seq<Seq<Cell>> {
    Seq::new(rows, |y: int| blank_row(cols))
}

/// `row` with every cell from column `from` on emptied.
pub open spec fn cleared_from(row: Seq<Cell>, from: nat) -> Seq<Cell> {
    Seq::new(row.len(), |x: int| if x >= from { default_cell() } else { row[x] })
}

/// `row` with every dirty flag lowered.
pub open spec fn clean_row(row: Seq<Cell>) -> Seq<Cell> {
    Seq::new(row.len(), |x: int| Cell { dirty: false, ..row[x] })
}

/// The last `n` rows of `s` (all of them when there are fewer).
pub open spec fn keep_last(s: Seq<Seq<Cell>>, n: nat) -> Seq<Seq<Cell>> {
    if s.len() <= n {
        s
    } else {
        s.subrange(s.len() - n, s.len() as int)
    }
}

/// `v` brought into `[0, hi]`, negative values to 0.
pub open spec fn clamp(v: int, hi: nat) -> nat {
    if v < 0 {
        0
    } else if v > hi {
        hi
    } else {
        v as nat
    }
}

impl GridView {
    /// Shape and bounds that every grid keeps.
    pub open spec fn wf(self) -> bool {
        &&& self.cols >= 1
        &&& self.rows >= 1
        &&& self.cells.len() == self.rows
        &&& forall|y: int| 0 <= y < self.rows ==> (#[trigger] self.cells[y]).len() == self.cols
        &&& self.cursor_x <= self.cols
        &&& self.cursor_y < self.rows
        &&& self.scrollback.len() <= self.capacity
    }

    /// A fresh grid: empty cells, cursor home, default pen, empty scrollback.
    pub open spec fn fresh(cols: nat, rows: nat, capacity: nat) -> GridView {
        GridView {
            cells: blank_screen(cols, rows),
            scrollback: Seq::empty(),
            capacity,
            cols,
            rows,
            cursor_x: 0,
            cursor_y: 0,
            style: default_style(),
            dirty: true,
        }
    }

    /// The cells with the one at column `x` of row `y` replaced.
    pub open spec fn put(self, x: nat, y: nat, cell: Cell) -> Seq<Seq<Cell>> {
        self.cells.update(y as int, self.cells[y as int].update(x as int, cell))
    }

    pub open spec fn carriage_return(self) -> GridView {
        GridView { cursor_x: 0, ..self }
    }

    /// Row 0 goes to the scrollback (the oldest kept row leaves when it is
    /// full) and an empty row comes in at the bottom.
    pub open spec fn scroll_up(self) -> GridView {
        GridView {
            cells: self.cells.drop_first().push(blank_row(self.cols)),
            scrollback: keep_last(self.scrollback.push(self.cells[0]), self.capacity),
            dirty: true,
            ..self
        }
    }

    /// Column 0 of the next row, scrolling when the cursor is on the last row.
    pub open spec fn newline(self) -> GridView {
        if self.cursor_y + 1 >= self.rows {
            GridView { cursor_x: 0, ..self.scroll_up() }
        } else {
            GridView { cursor_x: 0, cursor_y: self.cursor_y + 1, ..self }
        }
    }

    /// Wraps first when the cursor stands past the last column, then writes
    /// `c` with the pen at the cursor and moves one column right.
    pub open spec fn write_char(self, c: char) -> GridView {
        let g = if self.cursor_x >= self.cols {
            self.newline()
        } else {
            self
        };
        GridView {
            cells: g.put(g.cursor_x, g.cursor_y, Cell { c, style: g.style, dirty: true }),
            cursor_x: g.cursor_x + 1,
            dirty: true,
            ..g
        }
    }

    /// One column left, emptying the cell landed on; nothing at column 0.
    pub open spec fn backspace(self) -> GridView {
        if self.cursor_x > 0 {
            let x = (self.cursor_x - 1) as nat;
            GridView {
                cells: self.put(x, self.cursor_y, default_cell()),
                cursor_x: x,
                dirty: true,
                ..self
            }
        } else {
            self
        }
    }

    /// The next multiple of 8, no further than the last column.
    pub open spec fn tab(self) -> GridView {
        GridView {
            cursor_x: clamp(((self.cursor_x / 8 + 1) * 8) as int, (self.cols - 1) as nat),
            ..self
        }
    }

    /// Every visible cell emptied, cursor home; the scrollback stays.
    pub open spec fn clear(self) -> GridView {
        GridView {
            cells: blank_screen(self.cols, self.rows),
            cursor_x: 0,
            cursor_y: 0,
            dirty: true,
            ..self
        }
    }

    pub open spec fn clear_to_end_of_line(self) -> GridView {
        GridView {
            cells: self.cells.update(
                self.cursor_y as int,
                cleared_from(self.cells[self.cursor_y as int], self.cursor_x),
            ),
            dirty: true,
            ..self
        }
    }

    /// The cursor's row from the cursor on, and every row below it, emptied.
    pub open spec fn clear_to_end_of_screen(self) -> GridView {
        GridView {
            cells: Seq::new(
                self.rows,
                |y: int|
                    if y < self.cursor_y {
                        self.cells[y]
                    } else if y == self.cursor_y {
                        cleared_from(self.cells[y], self.cursor_x)
                    } else {
                        blank_row(self.cols)
                    },
            ),
            dirty: true,
            ..self
        }
    }

    /// Row `y` emptied; nothing when there is no such row.
    pub open spec fn clear_line(self, y: int) -> GridView {
        if 0 <= y < self.rows {
            GridView { cells: self.cells.update(y, blank_row(self.cols)), dirty: true, ..self }
        } else {
            self
        }
    }

    /// The cursor set to `(x, y)` brought inside the grid.
    pub open spec fn move_cursor(self, x: int, y: int) -> GridView {
        GridView {
            cursor_x: clamp(x, (self.cols - 1) as nat),
            cursor_y: clamp(y, (self.rows - 1) as nat),
            ..self
        }
    }

    pub open spec fn move_cursor_relative(self, dx: int, dy: int) -> GridView {
        self.move_cursor(self.cursor_x + dx, self.cursor_y + dy)
    }

    /// A `cols` x `rows` grid holding the old cells where both overlap and
    /// empty cells elsewhere; the cursor is brought inside.
    pub open spec fn resize(self, cols: nat, rows: nat) -> GridView {
        GridView {
            cells: Seq::new(
                rows,
                |y: int| Seq::new(cols, |x: int| self.resized_cell(x, y)),
            ),
            cols,
            rows,
            cursor_x: clamp(self.cursor_x as int, (cols - 1) as nat),
            cursor_y: clamp(self.cursor_y as int, (rows - 1) as nat),
            dirty: true,
            ..self
        }
    }

    /// Every dirty flag lowered.
    pub open spec fn mark_clean(self) -> GridView {
        GridView {
            cells: Seq::new(self.cells.len(), |y: int| clean_row(self.cells[y])),
            dirty: false,
            ..self
        }
    }

    /// What `resize` puts at column `x` of row `y`.
    pub open spec fn resized_cell(self, x: int, y: int) -> Cell {
        if y < self.rows && x < self.cols {
            self.cells[y][x]
        } else {
            default_cell()
        }
    }
}

/// Every grid operation keeps a grid well formed.
pub proof fn lemma_ops_wf(g: GridView)
    requires
        g.wf(),
    ensures
        g.carriage_return().wf(),
        g.scroll_up().wf(),
        g.newline().wf(),
        forall|c: char| #[trigger] g.write_char(c).wf(),
        g.backspace().wf(),
        g.tab().wf(),
        g.clear().wf(),
        g.clear_to_end_of_line().wf(),
        g.clear_to_end_of_screen().wf(),
        forall|y: int| #[trigger] g.clear_line(y).wf(),
        forall|x: int, y: int| #[trigger] g.move_cursor(x, y).wf(),
        forall|dx: int, dy: int| #[trigger] g.move_cursor_relative(dx, dy).wf(),
        g.mark_clean().wf(),
        forall|c: nat, r: nat| c >= 1 && r >= 1 ==> #[trigger] g.resize(c, r).wf(),
{
    lemma_newline_wf(g);
    assert forall|c: char| #[trigger] g.write_char(c).wf() by {
        lemma_write_char_wf(g, c);
    }
}

proof fn lemma_newline_wf(g: GridView)
    requires
        g.wf(),
    ensures
        g.scroll_up().wf(),
        g.newline().wf(),
{
    let s = g.scroll_up();
    assert forall|y: int| 0 <= y < s.rows implies (#[trigger] s.cells[y]).len() == s.cols by {
        if y < s.rows - 1 {
            assert(s.cells[y] == g.cells[y + 1]);
        }
    }
}

proof fn lemma_write_char_wf(g: GridView, c: char)
    requires
        g.wf(),
    ensures
        g.write_char(c).wf(),
{
    lemma_newline_wf(g);
    let h = if g.cursor_x >= g.cols { g.newline() } else { g };
    let cells = h.put(h.cursor_x, h.cursor_y, Cell { c, style: h.style, dirty: true });
    assert forall|y: int| 0 <= y < h.rows implies (#[trigger] cells[y]).len() == h.cols by {
        assert(h.cells[y].len() == h.cols);
    }
}

/// The terminal grid.
pub struct Grid {
    /// Visible rows, top first, each of `cols` cells.
    pub cells: Vec<Vec<Cell>>,
    /// Rows pushed off the top, oldest first.
    pub scrollback: Vec<Vec<Cell>>,
    /// Most rows `scrollback` keeps.
    pub scrollback_capacity: usize,
    pub cols: usize,
    pub rows: usize,
    pub cursor_x: usize,
    pub cursor_y: usize,
    /// The pen: style of the next written cell.
    pub current_style: CellStyle,
    pub dirty: bool,
}

impl View for Grid {
    type V = GridView;

    open spec fn view(&self) -> GridView {
        GridView {
            cells: rows_view(self.cells@),
            scrollback: rows_view(self.scrollback@),
            capacity: self.scrollback_capacity as nat,
            cols: self.cols as nat,
            rows: self.rows as nat,
            cursor_x: self.cursor_x as nat,
            cursor_y: self.cursor_y as nat,
            style: self.current_style,
            dirty: self.dirty,
        }
    }
}

/// A row of `cols` empty cells.
fn new_row(cols: usize) -> (r: Vec<Cell>)
    ensures
        r@ == blank_row(cols as nat),
{
    let mut r: Vec<Cell> = Vec::with_capacity(cols);
    let mut i: usize = 0;
    while i < cols
        invariant
            i <= cols,
            r@ == blank_row(i as nat),
        decreases cols - i,
    {
        r.push(Cell::default());
        i = i + 1;
        assert(r@ =~= blank_row(i as nat));
    }
    r
}

impl Grid {
    pub open spec fn wf(&self) -> bool {
        self@.wf()
    }

    /// A blank `cols` x `rows` grid whose scrollback keeps `SCROLLBACK_LINES` rows.
    pub fn new(cols: usize, rows: usize) -> (g: Grid)
        requires
            cols >= 1,
            rows >= 1,
        ensures
            g.wf(),
            g@ == GridView::fresh(cols as nat, rows as nat, SCROLLBACK_LINES as nat),
    {
        Grid::with_scrollback(cols, rows, SCROLLBACK_LINES)
    }

    /// A blank `cols` x `rows` grid whose scrollback keeps `capacity` rows.
    pub fn with_scrollback(cols: usize, rows: usize, capacity: usize) -> (g: Grid)
        requires
            cols >= 1,
            rows >= 1,
        ensures
            g.wf(),
            g@ == GridView::fresh(cols as nat, rows as nat, capacity as nat),
    {
        let mut cells: Vec<Vec<Cell>> = Vec::with_capacity(rows);
        let mut y: usize = 0;
        while y < rows
            invariant
                y <= rows,
                cells@.len() == y,
                forall|i: int| 0 <= i < y ==> (#[trigger] cells@[i])@ == blank_row(cols as nat),
            decreases rows - y,
        {
            cells.push(new_row(cols));
            y = y + 1;
        }
        assert(rows_view(cells@) =~= blank_screen(cols as nat, rows as nat));
        let g = Grid {
            cells,
            scrollback: Vec::new(),
            scrollback_capacity: capacity,
            cols,
            rows,
            cursor_x: 0,
            cursor_y: 0,
            current_style: CellStyle::default(),
            dirty: true,
        };
        assert(g@.scrollback =~= Seq::<Seq<Cell>>::empty());
        g
    }

    /// Writes `c` with the pen at the cursor and moves right, wrapping to the
    /// next line first when the cursor stands past the last column.
    pub fn write_char(&mut self, c: char)
        requires
            old(self).wf(),
        ensures
            final(self).wf(),
            final(self)@ == old(self)@.write_char(c),
    {
        if self.cursor_x >= self.cols {
            self.newline();
        }
        let x = self.cursor_x;
        let y = self.cursor_y;
        let ghost g = self@;
        self.cells[y].set(x, Cell { c, style: self.current_style, dirty: true });
        self.cursor_x = x + 1;
        self.dirty = true;
        assert(self@.cells =~= g.put(x as nat, y as nat, Cell { c, style: g.style, dirty: true }));
    }

    /// Column 0 of the next row; on the last row the grid scrolls instead.
    pub fn newline(&mut self)
        requires
            old(self).wf(),
        ensures
            final(self).wf(),
            final(self)@ == old(self)@.newline(),
    {
        self.cursor_x = 0;
        if self.cursor_y + 1 >= self.rows {
            self.scroll_up();
        } else {
            self.cursor_y = self.cursor_y + 1;
        }
    }

    pub fn carriage_return(&mut self)
        requires
            old(self).wf(),
        ensures
            final(self).wf(),
            final(self)@ == old(self)@.carriage_return(),
    {
        self.cursor_x = 0;
    }

    /// Moves row 0 into the scrollback, dropping its oldest row when full,
    /// and appends an empty row at the bottom.
    fn scroll_up(&mut self)
        requires
            old(self).wf(),
        ensures
            final(self).wf(),
            final(self)@ == old(self)@.scroll_up(),
    {
        let ghost g = self@;
        let first = self.cells.remove(0);
        if self.scrollback_capacity > 0 {
            if self.scrollback.len() >= self.scrollback_capacity {
                self.scrollback.remove(0);
            }
            self.scrollback.push(first);
        }
        let blank = new_row(self.cols);
        self.cells.push(blank);
        self.dirty = true;
        assert(self@.cells =~= g.cells.drop_first().push(blank_row(g.cols)));
        assert(self@.scrollback =~= keep_last(g.scrollback.push(g.cells[0]), g.capacity));
    }

    /// One column left, emptying the cell it lands on.
    pub fn backspace(&mut self)
        requires
            old(self).wf(),
        ensures
            final(self).wf(),
            final(self)@ == old(self)@.backspace(),
    {
        if self.cursor_x > 0 {
            let ghost g = self@;
            self.cursor_x = self.cursor_x - 1;
            let x = self.cursor_x;
            let y = self.cursor_y;
            self.cells[y].set(x, Cell::default());
            self.dirty = true;
            assert(self@.cells =~= g.put(x as nat, y as nat, default_cell()));
        }
    }

    /// To the next multiple of 8, no further than the last column.
    pub fn tab(&mut self)
        requires
            old(self).wf(),
        ensures
            final(self).wf(),
            final(self)@ == old(self)@.tab(),
    {
        let last = self.cols - 1;
        let q = self.cursor_x / 8;
        if q < last / 8 {
            assert((q + 1) * 8 <= last) by (nonlinear_arith)
                requires
                    q < last / 8,
            ;
            self.cursor_x = (q + 1) * 8;
        } else {
            assert((q + 1) * 8 > last) by (nonlinear_arith)
                requires
                    q >= last / 8,
            ;
            self.cursor_x = last;
        }
    }

    /// Empties every visible cell and homes the cursor; the scrollback stays.
    pub fn clear(&mut self)
        requires
            old(self).wf(),
        ensures
            final(self).wf(),
            final(self)@ == old(self)@.clear(),
    {
        let mut y: usize = 0;
        while y < self.rows
            invariant
                y <= self.rows,
                self.cells@.len() == self.rows,
                self@ == (GridView { cells: self@.cells, ..old(self)@ }),
                forall|i: int| 0 <= i < y ==> (#[trigger] self.cells@[i])@ == blank_row(self.cols as nat),
            decreases self.rows - y,
        {
            let row = new_row(self.cols);
            self.cells.set(y, row);
            y = y + 1;
        }
        self.cursor_x = 0;
        self.cursor_y = 0;
        self.dirty = true;
        assert(self@.cells =~= blank_screen(self.cols as nat, self.rows as nat));
    }

    /// Empties the cursor's row from the cursor to its end.
    pub fn clear_to_end_of_line(&mut self)
        requires
            old(self).wf(),
        ensures
            final(self).wf(),
            final(self)@ == old(self)@.clear_to_end_of_line(),
    {
        let y = self.cursor_y;
        let from = self.cursor_x;
        let ghost row = self.cells@[y as int]@;
        self.dirty = true;
        let mut x = from;
        while x < self.cols
            invariant
                from <= x <= self.cols,
                y == old(self).cursor_y,
                from == old(self).cursor_x,
                row == old(self)@.cells[y as int],
                old(self)@.wf(),
                self@ == (GridView { cells: self@.cells, dirty: true, ..old(self)@ }),
                self.cells@.len() == old(self).cells@.len(),
                forall|i: int| 0 <= i < self.rows && i != y ==> (#[trigger] self.cells@[i]) == old(self).cells@[i],
                self.cells@[y as int]@ == Seq::new(
                    row.len(),
                    |j: int|
                        if from <= j < x {
                            default_cell()
                        } else {
                            row[j]
                        },
                ),
            decreases self.cols - x,
        {
            self.cells[y].set(x, Cell::default());
            x = x + 1;
            assert(self.cells@[y as int]@ =~= Seq::new(
                row.len(),
                |j: int|
                    if from <= j < x {
                        default_cell()
                    } else {
                        row[j]
                    },
            ));
        }
        assert(self.cells@[y as int]@ =~= cleared_from(row, from as nat));
        assert(self@.cells =~= old(self)@.clear_to_end_of_line().cells);
    }

    /// Empties the cursor's row from the cursor on and every row below it.
    pub fn clear_to_end_of_screen(&mut self)
        requires
            old(self).wf(),
        ensures
            final(self).wf(),
            final(self)@ == old(self)@.clear_to_end_of_screen(),
    {
        self.clear_to_end_of_line();
        let ghost g = self@;
        let mut y: usize = self.cursor_y + 1;
        while y < self.rows
            invariant
                g.cursor_y < y <= self.rows,
                g.wf(),
                self.cells@.len() == self.rows,
                self@ == (GridView { cells: self@.cells, ..g }),
                forall|i: int| 0 <= i <= g.cursor_y ==> (#[trigger] self.cells@[i])@ == g.cells[i],
                forall|i: int| y <= i < self.rows ==> (#[trigger] self.cells@[i])@ == g.cells[i],
                forall|i: int| g.cursor_y < i < y ==> (#[trigger] self.cells@[i])@ == blank_row(self.cols as nat),
            decreases self.rows - y,
        {
            let row = new_row(self.cols);
            self.cells.set(y, row);
            y = y + 1;
        }
        self.dirty = true;
        assert(self@.cells =~= old(self)@.clear_to_end_of_screen().cells);
    }

    /// Empties row `y`; nothing when there is no such row.
    pub fn clear_line(&mut self, y: usize)
        requires
            old(self).wf(),
        ensures
            final(self).wf(),
            final(self)@ == old(self)@.clear_line(y as int),
    {
        if y < self.rows {
            let row = new_row(self.cols);
            self.cells.set(y, row);
            self.dirty = true;
            assert(self@.cells =~= old(self)@.cells.update(y as int, blank_row(self.cols as nat)));
        }
    }

    /// Puts the cursor at `(x, y)`, brought inside the grid.
    pub fn move_cursor(&mut self, x: usize, y: usize)
        requires
            old(self).wf(),
        ensures
            final(self).wf(),
            final(self)@ == old(self)@.move_cursor(x as int, y as int),
    {
        self.cursor_x = if x < self.cols - 1 { x } else { self.cols - 1 };
        self.cursor_y = if y < self.rows - 1 { y } else { self.rows - 1 };
    }

    /// Moves the cursor by `(dx, dy)`: negative results become 0, then the
    /// position is brought inside the grid.
    pub fn move_cursor_relative(&mut self, dx: isize, dy: isize)
        requires
            old(self).wf(),
        ensures
            final(self).wf(),
            final(self)@ == old(self)@.move_cursor_relative(dx as int, dy as int),
    {
        let nx = self.cursor_x as i128 + dx as i128;
        let ny = self.cursor_y as i128 + dy as i128;
        let last_x = self.cols - 1;
        let last_y = self.rows - 1;
        self.cursor_x = if nx < 0 { 0 } else if nx > last_x as i128 { last_x } else { nx as usize };
        self.cursor_y = if ny < 0 { 0 } else if ny > last_y as i128 { last_y } else { ny as usize };
    }

    /// The cell at column `x` of row `y`.
    pub fn get_cell(&self, x: usize, y: usize) -> (c: &Cell)
        requires
            self.wf(),
            x < self.cols,
            y < self.rows,
        ensures
            *c == self@.cells[y as int][x as int],
    {
        &self.cells[y][x]
    }

    /// Makes the grid `cols` x `rows`, keeping the cells where old and new
    /// overlap; the cursor is brought inside, the scrollback stays.
    pub fn resize(&mut self, cols: usize, rows: usize)
        requires
            old(self).wf(),
            cols >= 1,
            rows >= 1,
        ensures
            final(self).wf(),
            final(self)@ == old(self)@.resize(cols as nat, rows as nat),
    {
        let mut new_cells: Vec<Vec<Cell>> = Vec::with_capacity(rows);
        let mut y: usize = 0;
        while y < rows
            invariant
                y <= rows,
                self.wf(),
                new_cells@.len() == y,
                forall|i: int|
                    0 <= i < y ==> (#[trigger] new_cells@[i])@ == Seq::new(
                        cols as nat,
                        |x: int| self@.resized_cell(x, i),
                    ),
            decreases rows - y,
        {
            let mut row: Vec<Cell> = Vec::with_capacity(cols);
            let mut x: usize = 0;
            while x < cols
                invariant
                    x <= cols,
                    y < rows,
                    self.wf(),
                    row@.len() == x,
                    forall|j: int| 0 <= j < x ==> (#[trigger] row@[j]) == self@.resized_cell(j, y as int),
                decreases cols - x,
            {
                if y < self.rows && x < self.cols {
                    row.push(self.cells[y][x]);
                } else {
                    row.push(Cell::default());
                }
                x = x + 1;
            }
            assert(row@ =~= Seq::new(cols as nat, |x: int| self@.resized_cell(x, y as int)));
            new_cells.push(row);
            y = y + 1;
        }
        let ghost g = self@;
        self.cells = new_cells;
        self.cols = cols;
        self.rows = rows;
        self.cursor_x = if self.cursor_x < cols - 1 { self.cursor_x } else { cols - 1 };
        self.cursor_y = if self.cursor_y < rows - 1 { self.cursor_y } else { rows - 1 };
        self.dirty = true;
        assert(self@.cells =~= g.resize(cols as nat, rows as nat).cells);
    }

    /// Lowers the grid's dirty flag and every cell's.
    pub fn mark_clean(&mut self)
        requires
            old(self).wf(),
        ensures
            final(self).wf(),
            final(self)@ == old(self)@.mark_clean(),
    {
        self.dirty = false;
        let mut y: usize = 0;
        while y < self.rows
            invariant
                y <= self.rows,
                old(self)@.wf(),
                self@ == (GridView { cells: self@.cells, dirty: false, ..old(self)@ }),
                self.cells@.len() == self.rows,
                forall|i: int| 0 <= i < y ==> (#[trigger] self.cells@[i])@ == clean_row(old(self)@.cells[i]),
                forall|i: int| y <= i < self.rows ==> (#[trigger] self.cells@[i]) == old(self).cells@[i],
            decreases self.rows - y,
        {
            let mut x: usize = 0;
            while x < self.cols
                invariant
                    x <= self.cols,
                    y < self.rows,
                    old(self)@.wf(),
                    self@ == (GridView { cells: self@.cells, dirty: false, ..old(self)@ }),
                    self.cells@.len() == self.rows,
                    forall|i: int| 0 <= i < y ==> (#[trigger] self.cells@[i])@ == clean_row(old(self)@.cells[i]),
                    forall|i: int| y < i < self.rows ==> (#[trigger] self.cells@[i]) == old(self).cells@[i],
                    self.cells@[y as int]@.len() == self.cols,
                    forall|j: int|
                        0 <= j < x ==> (#[trigger] self.cells@[y as int]@[j]) == (Cell {
                            dirty: false,
                            ..old(self)@.cells[y as int][j]
                        }),
                    forall|j: int|
                        x <= j < self.cols ==> (#[trigger] self.cells@[y as int]@[j]) == old(self)@.cells[y as int][j],
                decreases self.cols - x,
            {
                let mut c = self.cells[y][x];
                c.dirty = false;
                self.cells[y].set(x, c);
                x = x + 1;
            }
            assert(self.cells@[y as int]@ =~= clean_row(old(self)@.cells[y as int]));
            y = y + 1;
        }
        assert(self@.cells =~= old(self)@.mark_clean().cells);
    }
}

} // verus!
