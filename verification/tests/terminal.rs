use primoria::tty::Cell;
use primoria::tty::Color;
use primoria::tty::Tty;
use primoria::tty::TtyMode;

#[test]
fn new_terminal_blank() {
    let t = Tty::new(80, 25);
    assert_eq!(t.width(), 80);
    assert_eq!(t.height(), 25);
    assert_eq!(t.get_cursor(), (0, 0));
    for row in 0..25 {
        for col in 0..80 {
            assert_eq!(t.cell_at(row, col), Cell { color: Color::White, ch: '\0' });
        }
    }
}

#[test]
fn putchar_writes_and_advances() {
    let mut t = Tty::new(80, 25);
    t.color = Color::Green;
    t.putchar('x');
    assert_eq!(t.cell_at(0, 0), Cell { color: Color::Green, ch: 'x' });
    assert_eq!(t.col, 1);
    assert_eq!(t.row, 0);
}

#[test]
fn newline_moves_to_next_line() {
    let mut t = Tty::new(80, 25);
    t.putchar('a');
    t.putchar('\n');
    assert_eq!(t.row, 1);
    assert_eq!(t.col, 0);
    assert_eq!(t.cell_at(0, 0).ch, 'a');
}

#[test]
fn fixed_mode_does_not_advance() {
    let mut t = Tty::new(80, 25);
    t.mode = TtyMode::Fixed;
    t.row = 3;
    t.col = 5;
    t.putchar('k');
    assert_eq!(t.cell_at(3, 5).ch, 'k');
    assert_eq!(t.col, 5);
    assert_eq!(t.row, 3);
}

#[test]
fn wrap_at_line_end() {
    let mut t = Tty::new(80, 25);
    t.col = 79;
    t.putchar('z');
    assert_eq!(t.cell_at(0, 79).ch, 'z');
    assert_eq!(t.row, 1);
    assert_eq!(t.col, 0);
}

#[test]
fn scroll_shifts_content_up_and_blanks_bottom() {
    let mut t = Tty::new(80, 25);
    t.row = 24;
    t.col = 0;
    t.putchar('y');
    assert_eq!(t.cell_at(24, 0).ch, 'y');
    t.putchar('\n');
    assert_eq!(t.row, 24);
    assert_eq!(t.col, 0);
    assert_eq!(t.cell_at(23, 0).ch, 'y');
    assert_eq!(t.cell_at(24, 0).ch, '\0');
}

#[test]
fn clear_rect_clears_exactly_the_rectangle() {
    let mut t = Tty::new(80, 25);
    for col in 0..10 {
        t.col = col;
        t.row = 0;
        t.putchar('m');
        t.col = col;
        t.row = 1;
        t.putchar('n');
    }
    t.row = 0;
    t.col = 0;
    t.clear_rect(0, 2, 4, 1);
    for col in 0..10 {
        let top = t.cell_at(0, col).ch;
        if (2..6).contains(&col) {
            assert_eq!(top, '\0');
        } else {
            assert_eq!(top, 'm');
        }
        assert_eq!(t.cell_at(1, col).ch, 'n');
    }
}

#[test]
fn cursor_moves_where_told() {
    let mut t = Tty::new(80, 25);
    t.set_cursor(7, 11);
    assert_eq!(t.get_cursor(), (7, 11));
}

#[test]
fn write_string_spells_out() {
    let mut t = Tty::new(80, 25);
    t.write_string("hi\nok");
    assert_eq!(t.cell_at(0, 0).ch, 'h');
    assert_eq!(t.cell_at(0, 1).ch, 'i');
    assert_eq!(t.cell_at(1, 0).ch, 'o');
    assert_eq!(t.cell_at(1, 1).ch, 'k');
    assert_eq!(t.row, 1);
    assert_eq!(t.col, 2);
}
