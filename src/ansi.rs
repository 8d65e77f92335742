//! A resumable interpreter of ANSI/VT control sequences that drives a grid.
//!
//! The machine is stated as `step`, one byte at a time, and `run`, a byte
//! sequence; `AnsiParser::process` follows `run` exactly, so everything it
//! does is fixed by the parser state and grid it starts from and the bytes.

use vstd::prelude::*;

use crate::grid::{lemma_ops_wf, Grid, GridView};
use crate::style::{default_style, CellStyle, Color};

verus! {

/// Where the parser stands within an escape sequence.
#[derive(Clone, Copy, Debug, PartialEq, Eq, Structural)]
pub enum State {
    Ground,
    Escape,
    Csi,
    CsiParam,
    Osc,
}

/// The parser as mathematical values.
pub struct ParserView {
    pub state: State,
    /// Parameters committed so far in a control sequence.
    pub params: Seq<u16>,
    /// The parameter being accumulated.
    pub current: u16,
    /// Bytes `?`, `>`, `!` seen in a control sequence; kept, not interpreted.
    pub intermediate: Seq<u8>,
}

impl ParserView {
    /// The parser at rest: ground state, nothing accumulated.
    pub open spec fn initial() -> ParserView {
        ParserView { state: State::Ground, params: Seq::empty(), current: 0, intermediate: Seq::empty() }
    }
}

/// Parameter `idx` when it is present and non-zero, `default` otherwise: an
/// explicit 0 counts as absent.
pub open spec fn param_or(params: Seq<u16>, idx: int, default: u16) -> u16 {
    if 0 <= idx < params.len() && params[idx] > 0 {
        params[idx]
    } else {
        default
    }
}

/// A byte in the ground state.
pub open spec fn ground(p: ParserView, g: GridView, b: u8) -> (ParserView, GridView) {
    if b == 0x1b {
        (ParserView { state: State::Escape, ..p }, g)
    } else if b == 0x08 {
        (p, g.backspace())
    } else if b == 0x09 {
        (p, g.tab())
    } else if 0x0a <= b <= 0x0c {
        (p, g.newline())
    } else if b == 0x0d {
        (p, g.carriage_return())
    } else if 0x20 <= b <= 0x7e {
        (p, g.write_char(b as char))
    } else if b >= 0xc0 {
        (p, g.write_char('?'))
    } else {
        (p, g)
    }
}

/// The grid after "reverse index": one row up, staying on row 0.
pub open spec fn reverse_index(g: GridView) -> GridView {
    if g.cursor_y > 0 {
        GridView { cursor_y: (g.cursor_y - 1) as nat, ..g }
    } else {
        g
    }
}

/// A byte right after ESC.
pub open spec fn escape(p: ParserView, g: GridView, b: u8) -> (ParserView, GridView) {
    let back = ParserView { state: State::Ground, ..p };
    if b == 0x5b {
        (ParserView { state: State::Csi, params: Seq::empty(), current: 0, intermediate: Seq::empty() }, g)
    } else if b == 0x5d {
        (ParserView { state: State::Osc, ..p }, g)
    } else if b == 0x63 {
        (back, GridView { style: default_style(), ..g.clear() })
    } else if b == 0x44 {
        (back, g.newline())
    } else if b == 0x45 {
        (back, g.newline().carriage_return())
    } else if b == 0x4d {
        (back, reverse_index(g))
    } else {
        (back, g)
    }
}

/// The style after one SGR code at `args[i]`, and how many of the following
/// parameters that code used up.
pub open spec fn sgr_code(args: Seq<u16>, i: int, s: CellStyle) -> (CellStyle, int) {
    let v = args[i];
    if v == 0 {
        (default_style(), 0)
    } else if v == 1 {
        (CellStyle { bold: true, ..s }, 0)
    } else if v == 3 {
        (CellStyle { italic: true, ..s }, 0)
    } else if v == 4 {
        (CellStyle { underline: true, ..s }, 0)
    } else if v == 7 {
        (CellStyle { inverse: true, ..s }, 0)
    } else if v == 22 {
        (CellStyle { bold: false, ..s }, 0)
    } else if v == 23 {
        (CellStyle { italic: false, ..s }, 0)
    } else if v == 24 {
        (CellStyle { underline: false, ..s }, 0)
    } else if v == 27 {
        (CellStyle { inverse: false, ..s }, 0)
    } else if 30 <= v <= 37 {
        (CellStyle { fg: Color::Indexed((v - 30) as u8), ..s }, 0)
    } else if v == 38 || v == 48 {
        match extended_color(args, i) {
            Some((c, used)) => {
                let s2 = match c {
                    Some(c) => if v == 38 {
                        CellStyle { fg: c, ..s }
                    } else {
                        CellStyle { bg: c, ..s }
                    },
                    None => s,
                };
                (s2, used)
            },
            None => (s, 0),
        }
    } else if v == 39 {
        (CellStyle { fg: Color::Default, ..s }, 0)
    } else if 40 <= v <= 47 {
        (CellStyle { bg: Color::Indexed((v - 40) as u8), ..s }, 0)
    } else if v == 49 {
        (CellStyle { bg: Color::Default, ..s }, 0)
    } else if 90 <= v <= 97 {
        (CellStyle { fg: Color::Indexed((v - 90 + 8) as u8), ..s }, 0)
    } else if 100 <= v <= 107 {
        (CellStyle { bg: Color::Indexed((v - 100 + 8) as u8), ..s }, 0)
    } else {
        (s, 0)
    }
}

/// The colour that an extended colour code at `args[i]` (38 or 48) selects
/// and the parameters it uses up: `5;n` a palette entry (none when n >= 16),
/// `2;r;g;b` a direct colour. `None` when neither form follows.
pub open spec fn extended_color(args: Seq<u16>, i: int) -> Option<(Option<Color>, int)> {
    if i + 2 < args.len() && args[i + 1] == 5 {
        if args[i + 2] < 16 {
            Some((Some(Color::Indexed(args[i + 2] as u8)), 2))
        } else {
            Some((None, 2))
        }
    } else if i + 4 < args.len() && args[i + 1] == 2 {
        Some((Some(Color::Rgb(args[i + 2], args[i + 3], args[i + 4])), 4))
    } else {
        None
    }
}

/// The style after the SGR codes of `args` from index `i` on, left to right.
pub open spec fn sgr_from(args: Seq<u16>, i: int, s: CellStyle) -> CellStyle
    decreases args.len() - i,
{
    if 0 <= i < args.len() {
        let (s2, used) = sgr_code(args, i, s);
        sgr_from(args, i + 1 + used, s2)
    } else {
        s
    }
}

/// What a control sequence ending in `b` with parameters `args` does to the grid.
pub open spec fn dispatch(args: Seq<u16>, g: GridView, b: u8) -> GridView {
    let n = param_or(args, 0, 1) as int;
    if b == 0x41 {
        g.move_cursor_relative(0, -n)
    } else if b == 0x42 {
        g.move_cursor_relative(0, n)
    } else if b == 0x43 {
        g.move_cursor_relative(n, 0)
    } else if b == 0x44 {
        g.move_cursor_relative(-n, 0)
    } else if b == 0x48 || b == 0x66 {
        g.move_cursor(param_or(args, 1, 1) - 1, param_or(args, 0, 1) - 1)
    } else if b == 0x4a {
        let mode = param_or(args, 0, 0);
        if mode == 0 {
            g.clear_to_end_of_screen()
        } else if mode == 2 || mode == 3 {
            g.clear()
        } else {
            g
        }
    } else if b == 0x4b {
        let mode = param_or(args, 0, 0);
        if mode == 0 {
            g.clear_to_end_of_line()
        } else if mode == 2 {
            g.clear_line(g.cursor_y as int)
        } else {
            g
        }
    } else if b == 0x6d {
        GridView { style: sgr_from(args, 0, g.style), ..g }
    } else {
        g
    }
}

pub open spec fn is_digit(b: u8) -> bool {
    0x30 <= b <= 0x39
}

/// A byte inside a control sequence: digits accumulate the parameter (modulo
/// 2^16), `;` commits it, `?` `>` `!` are kept; any other byte commits the
/// parameter, dispatches and returns to the ground state.
pub open spec fn csi(p: ParserView, g: GridView, b: u8) -> (ParserView, GridView) {
    if is_digit(b) {
        (
            ParserView {
                state: State::CsiParam,
                current: ((p.current * 10 + (b - 0x30)) % 0x10000) as u16,
                ..p
            },
            g,
        )
    } else if b == 0x3b {
        (ParserView { params: p.params.push(p.current), current: 0, ..p }, g)
    } else if b == 0x3f || b == 0x3e || b == 0x21 {
        (ParserView { intermediate: p.intermediate.push(b), ..p }, g)
    } else {
        (ParserView::initial(), dispatch(p.params.push(p.current), g, b))
    }
}

/// A byte inside an operating system command: BEL or ESC ends it, anything
/// else is dropped.
pub open spec fn osc(p: ParserView, g: GridView, b: u8) -> (ParserView, GridView) {
    if b == 0x07 || b == 0x1b {
        (ParserView { state: State::Ground, ..p }, g)
    } else {
        (p, g)
    }
}

/// One byte through the machine.
pub open spec fn step(p: ParserView, g: GridView, b: u8) -> (ParserView, GridView) {
    match p.state {
        State::Ground => ground(p, g, b),
        State::Escape => escape(p, g, b),
        State::Csi | State::CsiParam => csi(p, g, b),
        State::Osc => osc(p, g, b),
    }
}

/// A byte sequence through the machine, first byte first.
pub open spec fn run(p: ParserView, g: GridView, bytes: Seq<u8>) -> (ParserView, GridView)
    decreases bytes.len(),
{
    if bytes.len() == 0 {
        (p, g)
    } else {
        let (p1, g1) = run(p, g, bytes.drop_last());
        step(p1, g1, bytes.last())
    }
}

/// `run` over a sequence with one more byte is one more `step`.
pub proof fn lemma_run_push(p: ParserView, g: GridView, s: Seq<u8>, b: u8)
    ensures
        run(p, g, s.push(b)) == step(run(p, g, s).0, run(p, g, s).1, b),
{
    assert(s.push(b).drop_last() =~= s);
}

/// A byte keeps the grid well formed and its scrollback capacity unchanged.
pub proof fn lemma_step_wf(p: ParserView, g: GridView, b: u8)
    requires
        g.wf(),
    ensures
        step(p, g, b).1.wf(),
        step(p, g, b).1.capacity == g.capacity,
{
    lemma_ops_wf(g);
    lemma_ops_wf(g.newline());
    lemma_ops_wf(g.clear());
}

/// The interpreter. Its state persists between calls of `process`, so a
/// sequence may arrive split at any byte.
pub struct AnsiParser {
    state: State,
    params: Vec<u16>,
    current_param: u16,
    intermediate: Vec<u8>,
}

impl View for AnsiParser {
    type V = ParserView;

    closed spec fn view(&self) -> ParserView {
        ParserView {
            state: self.state,
            params: self.params@,
            current: self.current_param,
            intermediate: self.intermediate@,
        }
    }
}

impl AnsiParser {
    pub fn new() -> (p: AnsiParser)
        ensures
            p@ == ParserView::initial(),
    {
        AnsiParser {
            state: State::Ground,
            params: Vec::with_capacity(16),
            current_param: 0,
            intermediate: Vec::with_capacity(8),
        }
    }

    /// Feeds `data` through the machine, byte by byte, into `grid`.
    pub fn process(&mut self, data: &[u8], grid: &mut Grid)
        requires
            old(grid).wf(),
        ensures
            final(grid).wf(),
            (final(self)@, final(grid)@) == run(old(self)@, old(grid)@, data@),
    {
        let mut i: usize = 0;
        while i < data.len()
            invariant
                i <= data@.len(),
                grid.wf(),
                (self@, grid@) == run(old(self)@, old(grid)@, data@.subrange(0, i as int)),
            decreases data@.len() - i,
        {
            proof {
                assert(data@.subrange(0, i + 1).drop_last() =~= data@.subrange(0, i as int));
            }
            self.process_byte(data[i], grid);
            i = i + 1;
        }
        assert(data@.subrange(0, data@.len() as int) =~= data@);
    }

    fn process_byte(&mut self, byte: u8, grid: &mut Grid)
        requires
            old(grid).wf(),
        ensures
            final(grid).wf(),
            (final(self)@, final(grid)@) == step(old(self)@, old(grid)@, byte),
    {
        match self.state {
            State::Ground => self.ground(byte, grid),
            State::Escape => self.escape(byte, grid),
            State::Csi | State::CsiParam => self.csi(byte, grid),
            State::Osc => self.osc(byte),
        }
    }

    fn ground(&mut self, byte: u8, grid: &mut Grid)
        requires
            old(grid).wf(),
        ensures
            final(grid).wf(),
            (final(self)@, final(grid)@) == ground(old(self)@, old(grid)@, byte),
    {
        if byte == 0x1b {
            self.state = State::Escape;
        } else if byte == 0x08 {
            grid.backspace();
        } else if byte == 0x09 {
            grid.tab();
        } else if 0x0a <= byte && byte <= 0x0c {
            grid.newline();
        } else if byte == 0x0d {
            grid.carriage_return();
        } else if 0x20 <= byte && byte <= 0x7e {
            grid.write_char(byte as char);
        } else if byte >= 0xc0 {
            grid.write_char('?');
        }
    }

    fn escape(&mut self, byte: u8, grid: &mut Grid)
        requires
            old(grid).wf(),
        ensures
            final(grid).wf(),
            (final(self)@, final(grid)@) == escape(old(self)@, old(grid)@, byte),
    {
        if byte == 0x5b {
            self.state = State::Csi;
            self.params.clear();
            self.current_param = 0;
            self.intermediate.clear();
        } else if byte == 0x5d {
            self.state = State::Osc;
        } else {
            if byte == 0x63 {
                grid.clear();
                grid.current_style = CellStyle::default();
            } else if byte == 0x44 {
                grid.newline();
            } else if byte == 0x45 {
                grid.newline();
                grid.carriage_return();
            } else if byte == 0x4d {
                if grid.cursor_y > 0 {
                    grid.cursor_y = grid.cursor_y - 1;
                }
            }
            self.state = State::Ground;
        }
    }

    fn csi(&mut self, byte: u8, grid: &mut Grid)
        requires
            old(grid).wf(),
        ensures
            final(grid).wf(),
            (final(self)@, final(grid)@) == csi(old(self)@, old(grid)@, byte),
    {
        if 0x30 <= byte && byte <= 0x39 {
            self.state = State::CsiParam;
            let next: u32 = (self.current_param as u32) * 10 + (byte - 0x30) as u32;
            self.current_param = (next % 0x10000) as u16;
        } else if byte == 0x3b {
            self.params.push(self.current_param);
            self.current_param = 0;
        } else if byte == 0x3f || byte == 0x3e || byte == 0x21 {
            self.intermediate.push(byte);
        } else {
            self.params.push(self.current_param);
            self.dispatch(byte, grid);
            self.reset();
        }
    }

    fn osc(&mut self, byte: u8)
        ensures
            final(self)@ == (if byte == 0x07 || byte == 0x1b {
                ParserView { state: State::Ground, ..old(self)@ }
            } else {
                old(self)@
            }),
    {
        if byte == 0x07 || byte == 0x1b {
            self.state = State::Ground;
        }
    }

    /// Carries out the control sequence ending in `byte` with the committed
    /// parameters.
    fn dispatch(&self, byte: u8, grid: &mut Grid)
        requires
            old(grid).wf(),
        ensures
            final(grid).wf(),
            final(grid)@ == dispatch(self@.params, old(grid)@, byte),
    {
        if byte == 0x41 {
            let n = self.get_param(0, 1) as isize;
            grid.move_cursor_relative(0, -n);
        } else if byte == 0x42 {
            let n = self.get_param(0, 1) as isize;
            grid.move_cursor_relative(0, n);
        } else if byte == 0x43 {
            let n = self.get_param(0, 1) as isize;
            grid.move_cursor_relative(n, 0);
        } else if byte == 0x44 {
            let n = self.get_param(0, 1) as isize;
            grid.move_cursor_relative(-n, 0);
        } else if byte == 0x48 || byte == 0x66 {
            let row = (self.get_param(0, 1) - 1) as usize;
            let col = (self.get_param(1, 1) - 1) as usize;
            grid.move_cursor(col, row);
        } else if byte == 0x4a {
            let mode = self.get_param(0, 0);
            if mode == 0 {
                grid.clear_to_end_of_screen();
            } else if mode == 2 || mode == 3 {
                grid.clear();
            }
        } else if byte == 0x4b {
            let mode = self.get_param(0, 0);
            if mode == 0 {
                grid.clear_to_end_of_line();
            } else if mode == 2 {
                let y = grid.cursor_y;
                grid.clear_line(y);
            }
        } else if byte == 0x6d {
            self.process_sgr(grid);
        }
    }

    /// Applies the committed parameters as SGR codes to the grid's pen.
    fn process_sgr(&self, grid: &mut Grid)
        requires
            old(grid).wf(),
        ensures
            final(grid).wf(),
            final(grid)@ == (GridView { style: sgr_from(self@.params, 0, old(grid)@.style), ..old(grid)@ }),
    {
        let mut style = grid.current_style;
        let mut i: usize = 0;
        while i < self.params.len()
            invariant
                i <= self@.params.len(),
                sgr_from(self@.params, i as int, style) == sgr_from(self@.params, 0, old(grid)@.style),
            decreases self.params.len() - i,
        {
            let v = self.params[i];
            let mut used: usize = 0;
            if v == 0 {
                style = CellStyle::default();
            } else if v == 1 {
                style.bold = true;
            } else if v == 3 {
                style.italic = true;
            } else if v == 4 {
                style.underline = true;
            } else if v == 7 {
                style.inverse = true;
            } else if v == 22 {
                style.bold = false;
            } else if v == 23 {
                style.italic = false;
            } else if v == 24 {
                style.underline = false;
            } else if v == 27 {
                style.inverse = false;
            } else if 30 <= v && v <= 37 {
                style.fg = Color::Indexed((v - 30) as u8);
            } else if v == 38 || v == 48 {
                let n = self.params.len();
                if n - i > 2 && self.params[i + 1] == 5 {
                    let idx = self.params[i + 2];
                    if idx < 16 {
                        if v == 38 {
                            style.fg = Color::Indexed(idx as u8);
                        } else {
                            style.bg = Color::Indexed(idx as u8);
                        }
                    }
                    used = 2;
                } else if n - i > 4 && self.params[i + 1] == 2 {
                    let c = Color::Rgb(self.params[i + 2], self.params[i + 3], self.params[i + 4]);
                    if v == 38 {
                        style.fg = c;
                    } else {
                        style.bg = c;
                    }
                    used = 4;
                }
            } else if v == 39 {
                style.fg = Color::Default;
            } else if 40 <= v && v <= 47 {
                style.bg = Color::Indexed((v - 40) as u8);
            } else if v == 49 {
                style.bg = Color::Default;
            } else if 90 <= v && v <= 97 {
                style.fg = Color::Indexed((v - 90 + 8) as u8);
            } else if 100 <= v && v <= 107 {
                style.bg = Color::Indexed((v - 100 + 8) as u8);
            }
            i = i + 1 + used;
        }
        grid.current_style = style;
    }

    /// Parameter `idx` when it is present and non-zero, `default` otherwise.
    pub fn get_param(&self, idx: usize, default: u16) -> (r: u16)
        ensures
            r == param_or(self@.params, idx as int, default),
    {
        if idx < self.params.len() && self.params[idx] > 0 {
            self.params[idx]
        } else {
            default
        }
    }

    /// Back to the ground state with nothing accumulated.
    pub fn reset(&mut self)
        ensures
            final(self)@ == ParserView::initial(),
    {
        self.state = State::Ground;
        self.params.clear();
        self.current_param = 0;
        self.intermediate.clear();
    }
}

impl Default for AnsiParser {
    fn default() -> (p: Self)
        ensures
            p@ == ParserView::initial(),
    {
        AnsiParser::new()
    }
}

} // verus!
