use rterm::{Cell, CellStyle, Color, Grid};

fn row_text(g: &Grid, y: usize) -> String {
    (0..g.cols).map(|x| g.get_cell(x, y).c).collect()
}

#[test]
fn new_grid_is_blank() {
    let g = Grid::new(4, 3);
    assert_eq!((g.cols, g.rows), (4, 3));
    assert_eq!((g.cursor_x, g.cursor_y), (0, 0));
    assert_eq!(g.current_style, CellStyle::default());
    for y in 0..3 {
        for x in 0..4 {
            assert_eq!(*g.get_cell(x, y), Cell::default());
        }
    }
    assert!(g.scrollback.is_empty());
    assert_eq!(g.scrollback_capacity, 10000);
}

#[test]
fn write_hello_scenario() {
    let mut g = Grid::new(10, 2);
    for c in "Hello".chars() {
        g.write_char(c);
    }
    assert_eq!(row_text(&g, 0), "Hello     ");
    assert_eq!((g.cursor_x, g.cursor_y), (5, 0));
}

#[test]
fn write_wraps_at_line_end() {
    let mut g = Grid::new(3, 2);
    for c in "abcd".chars() {
        g.write_char(c);
    }
    assert_eq!(row_text(&g, 0), "abc");
    assert_eq!(row_text(&g, 1), "d  ");
    assert_eq!((g.cursor_x, g.cursor_y), (1, 1));
}

#[test]
fn cursor_may_rest_past_last_column() {
    let mut g = Grid::new(3, 2);
    for c in "abc".chars() {
        g.write_char(c);
    }
    assert_eq!((g.cursor_x, g.cursor_y), (3, 0));
}

#[test]
fn pen_applies_to_later_writes_only() {
    let mut g = Grid::new(5, 1);
    g.write_char('a');
    g.current_style.bold = true;
    g.write_char('b');
    assert!(!g.get_cell(0, 0).style.bold);
    assert!(g.get_cell(1, 0).style.bold);
}

#[test]
fn newline_resets_column_and_advances() {
    let mut g = Grid::new(5, 3);
    g.write_char('a');
    g.newline();
    assert_eq!((g.cursor_x, g.cursor_y), (0, 1));
}

#[test]
fn newline_on_last_row_scrolls() {
    let mut g = Grid::new(2, 2);
    g.write_char('a');
    g.newline();
    g.write_char('b');
    g.newline();
    assert_eq!((g.cursor_x, g.cursor_y), (0, 1));
    assert_eq!(row_text(&g, 0), "b ");
    assert_eq!(row_text(&g, 1), "  ");
    assert_eq!(g.scrollback.len(), 1);
    assert_eq!(g.scrollback[0][0].c, 'a');
}

#[test]
fn carriage_return_keeps_row() {
    let mut g = Grid::new(5, 3);
    g.move_cursor(3, 2);
    g.carriage_return();
    assert_eq!((g.cursor_x, g.cursor_y), (0, 2));
}

#[test]
fn backspace_erases_and_moves() {
    let mut g = Grid::new(5, 1);
    g.write_char('a');
    g.write_char('b');
    g.backspace();
    assert_eq!(g.cursor_x, 1);
    assert_eq!(*g.get_cell(1, 0), Cell::default());
    assert_eq!(g.get_cell(0, 0).c, 'a');
}

#[test]
fn backspace_at_column_zero_does_nothing() {
    let mut g = Grid::new(5, 1);
    g.write_char('a');
    g.carriage_return();
    g.backspace();
    assert_eq!(g.cursor_x, 0);
    assert_eq!(g.get_cell(0, 0).c, 'a');
}

#[test]
fn tab_stops_every_eight_columns() {
    let mut g = Grid::new(20, 1);
    g.tab();
    assert_eq!(g.cursor_x, 8);
    g.move_cursor(9, 0);
    g.tab();
    assert_eq!(g.cursor_x, 16);
    g.tab();
    assert_eq!(g.cursor_x, 19);
    g.tab();
    assert_eq!(g.cursor_x, 19);
}

#[test]
fn clear_empties_screen_but_keeps_scrollback() {
    let mut g = Grid::new(2, 1);
    g.write_char('a');
    g.newline();
    g.write_char('b');
    g.clear();
    assert_eq!(row_text(&g, 0), "  ");
    assert_eq!((g.cursor_x, g.cursor_y), (0, 0));
    assert_eq!(g.scrollback.len(), 1);
}

#[test]
fn clear_to_end_of_line_from_cursor() {
    let mut g = Grid::new(4, 2);
    for c in "abcdefgh".chars() {
        g.write_char(c);
    }
    g.move_cursor(1, 0);
    g.clear_to_end_of_line();
    assert_eq!(row_text(&g, 0), "a   ");
    assert_eq!(row_text(&g, 1), "efgh");
}

#[test]
fn clear_to_end_of_screen_from_cursor() {
    let mut g = Grid::new(2, 3);
    for c in "abcdef".chars() {
        g.write_char(c);
    }
    g.move_cursor(1, 1);
    g.clear_to_end_of_screen();
    assert_eq!(row_text(&g, 0), "ab");
    assert_eq!(row_text(&g, 1), "c ");
    assert_eq!(row_text(&g, 2), "  ");
}

#[test]
fn clear_line_outside_grid_does_nothing() {
    let mut g = Grid::new(2, 2);
    g.write_char('a');
    g.clear_line(5);
    assert_eq!(row_text(&g, 0), "a ");
    g.clear_line(0);
    assert_eq!(row_text(&g, 0), "  ");
}

#[test]
fn move_cursor_clamps_into_grid() {
    let mut g = Grid::new(10, 4);
    g.move_cursor(10 + 5, 4 + 5);
    assert_eq!((g.cursor_x, g.cursor_y), (9, 3));
}

#[test]
fn move_cursor_relative_floors_at_zero() {
    let mut g = Grid::new(10, 4);
    g.move_cursor(2, 2);
    g.move_cursor_relative(-5, 1);
    assert_eq!((g.cursor_x, g.cursor_y), (0, 3));
    g.move_cursor_relative(100, 100);
    assert_eq!((g.cursor_x, g.cursor_y), (9, 3));
}

#[test]
fn resize_keeps_overlap_and_clamps_cursor() {
    let mut g = Grid::new(4, 3);
    for c in "abcdefghijkl".chars() {
        g.write_char(c);
    }
    g.move_cursor(3, 2);
    g.resize(2, 2);
    assert_eq!((g.cols, g.rows), (2, 2));
    assert_eq!(row_text(&g, 0), "ab");
    assert_eq!(row_text(&g, 1), "ef");
    assert_eq!((g.cursor_x, g.cursor_y), (1, 1));
}

#[test]
fn resize_shrink_then_grow_loses_content() {
    let mut g = Grid::new(4, 3);
    for c in "abcdefghijkl".chars() {
        g.write_char(c);
    }
    g.resize(2, 2);
    g.resize(4, 3);
    assert_eq!(row_text(&g, 0), "ab  ");
    assert_eq!(row_text(&g, 1), "ef  ");
    assert_eq!(row_text(&g, 2), "    ");
    assert_eq!(*g.get_cell(3, 2), Cell::default());
}

#[test]
fn resize_leaves_scrollback() {
    let mut g = Grid::new(2, 1);
    g.write_char('a');
    g.newline();
    g.resize(5, 5);
    assert_eq!(g.scrollback.len(), 1);
}

#[test]
fn scrollback_keeps_newest_rows() {
    let capacity = 3;
    let rows = 2;
    let mut g = Grid::with_scrollback(1, rows, capacity);
    let labels: Vec<char> = "abcdefghij".chars().collect();
    for &c in &labels {
        g.write_char(c);
        g.newline();
    }
    assert!(labels.len() > rows + capacity);
    assert_eq!(g.scrollback.len(), capacity);
    let kept: Vec<char> = g.scrollback.iter().map(|r| r[0].c).collect();
    assert_eq!(kept, vec!['g', 'h', 'i']);
}

#[test]
fn scrollback_default_capacity_bound() {
    let mut g = Grid::new(1, 2);
    for _ in 0..(2 + 10000 + 7) {
        g.newline();
    }
    assert_eq!(g.scrollback.len(), 10000);
}

#[test]
fn zero_capacity_scrollback_stays_empty() {
    let mut g = Grid::with_scrollback(1, 1, 0);
    g.newline();
    g.newline();
    assert!(g.scrollback.is_empty());
}

#[test]
fn mark_clean_lowers_flags() {
    let mut g = Grid::new(2, 2);
    g.write_char('x');
    g.mark_clean();
    assert!(!g.dirty);
    assert!(!g.get_cell(0, 0).dirty);
    assert_eq!(g.get_cell(0, 0).c, 'x');
    g.write_char('y');
    assert!(g.dirty);
    assert!(g.get_cell(1, 0).dirty);
}

#[test]
fn draw_colors_swap_on_inverse() {
    let mut s = CellStyle::default();
    s.fg = Color::Indexed(1);
    s.bg = Color::Indexed(2);
    assert_eq!(s.draw_colors(), (Color::Indexed(1), Color::Indexed(2)));
    s.inverse = true;
    assert_eq!(s.draw_colors(), (Color::Indexed(2), Color::Indexed(1)));
}

#[test]
fn blank_cell_needs_no_drawing() {
    let mut c = Cell::default();
    assert!(c.is_blank());
    c.style.bg = Color::Indexed(4);
    assert!(!c.is_blank());
    let mut d = Cell::default();
    d.c = 'a';
    assert!(!d.is_blank());
}
