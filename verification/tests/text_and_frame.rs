use tetris::board::Board;
use tetris::figure::{Figure, FigureKind};
use tetris::game::GameState;
use tetris::geometry::Size;
use tetris::render::{
    board_part, board_row, compose, push_clock, statistics_part, Glyphs,
};
use tetris::text::{
    center, digit_char, push_decimal, push_padded, push_spaces, required_width,
};

fn strings(lines: &[&str]) -> Vec<String> {
    lines.iter().map(|line| String::from(*line)).collect()
}

fn decimal(n: u64) -> String {
    let mut out = String::new();
    push_decimal(&mut out, n);
    out
}

fn clock(seconds: u64) -> String {
    let mut out = String::new();
    push_clock(&mut out, seconds);
    out
}

fn padded(s: &str, width: usize) -> String {
    let mut out = String::new();
    push_padded(&mut out, s, width);
    out
}

#[test]
fn digits() {
    let all: Vec<char> = (0..10).map(digit_char).collect();
    assert_eq!(all, vec!['0', '1', '2', '3', '4', '5', '6', '7', '8', '9']);
}

#[test]
fn decimal_numerals() {
    assert_eq!(decimal(0), "0");
    assert_eq!(decimal(7), "7");
    assert_eq!(decimal(10), "10");
    assert_eq!(decimal(65536), "65536");
    assert_eq!(decimal(1_234_567_890), "1234567890");
    assert_eq!(decimal(u64::MAX), u64::MAX.to_string());
    let mut out = String::from("n=");
    push_decimal(&mut out, 42);
    assert_eq!(out, "n=42");
}

#[test]
fn clock_texts() {
    assert_eq!(clock(0), "0:00");
    assert_eq!(clock(9), "0:09");
    assert_eq!(clock(59), "0:59");
    assert_eq!(clock(60), "1:00");
    assert_eq!(clock(61), "1:01");
    assert_eq!(clock(754), "12:34");
    assert_eq!(clock(6000), "100:00");
    for seconds in [0u64, 5, 75, 3599, 3600, 86_399] {
        assert_eq!(clock(seconds), format!("{}:{:02}", seconds / 60, seconds % 60));
    }
}

#[test]
fn spaces_are_appended() {
    let mut out = String::from("a");
    push_spaces(&mut out, 3);
    assert_eq!(out, "a   ");
    push_spaces(&mut out, 0);
    assert_eq!(out, "a   ");
}

#[test]
fn padding_fills_on_the_right() {
    assert_eq!(padded("ab", 5), "ab   ");
    assert_eq!(padded("ab", 2), "ab");
    assert_eq!(padded("abcdef", 3), "abcdef");
    assert_eq!(padded("", 2), "  ");
    assert_eq!(padded("СЧЁТ:", 8), "СЧЁТ:   ");
    for width in 0..12 {
        assert_eq!(padded("ВРЕМЯ:", width), format!("{:<width$}", "ВРЕМЯ:"));
    }
}

#[test]
fn centring_puts_the_odd_blank_on_the_right() {
    assert_eq!(center("ab", 5), " ab  ");
    assert_eq!(center("ab", 6), "  ab  ");
    assert_eq!(center("ab", 2), "ab");
    assert_eq!(center("abcd", 2), "abcd");
    assert_eq!(center("", 3), "   ");
    for width in 0..14 {
        assert_eq!(center("  []    ", width), format!("{:^width$}", "  []    "));
    }
}

#[test]
fn required_width_counts_characters() {
    assert_eq!(required_width(&strings(&[])), 0);
    assert_eq!(required_width(&strings(&["", ""])), 0);
    assert_eq!(required_width(&strings(&["A:1", "B:22"])), 4);
    assert_eq!(required_width(&strings(&["<!..!>", "<!..!>", "<!==!>"])), 6);
    assert_eq!(required_width(&strings(&["УРОВЕНЬ:", "ab"])), 8);
    assert_eq!(required_width(&strings(&["abc", "a", "ab"])), 3);
}

#[test]
fn compose_two_blocks() {
    let stats = strings(&["A:1", "B:22"]);
    let board = strings(&["<!..!>", "<!..!>", "<!==!>"]);
    let rows = compose(&stats, &board);
    assert_eq!(rows.len(), 3);
    assert_eq!(rows, strings(&["A:1   <!..!>", "B:22  <!..!>", "      <!==!>"]));
    assert_eq!(rows[2], format!("{:<4}  {:<6}", "", "<!==!>"));
}

#[test]
fn compose_is_the_same_each_time() {
    let stats = strings(&["A:1", "B:22"]);
    let board = strings(&["<!..!>", "<!..!>", "<!==!>"]);
    assert_eq!(compose(&stats, &board), compose(&stats, &board));
}

#[test]
fn compose_with_the_longer_block_on_the_left() {
    let rows = compose(&strings(&["one", "two", "three"]), &strings(&["x"]));
    assert_eq!(rows, strings(&["one    x", "two     ", "three   "]));
}

#[test]
fn compose_with_an_empty_block() {
    assert_eq!(compose(&strings(&[]), &strings(&[])), Vec::<String>::new());
    assert_eq!(compose(&strings(&["ab"]), &strings(&[])), strings(&["ab  "]));
    assert_eq!(compose(&strings(&[]), &strings(&["ab", "c"])), strings(&["  ab", "  c "]));
}

#[test]
fn compose_does_not_swap_the_blocks() {
    let rows = compose(&strings(&["L"]), &strings(&["R", "RR"]));
    assert_eq!(rows, strings(&["L  R ", "   RR"]));
}

#[test]
fn board_rows_and_borders() {
    let board = Board::new(Size { height: 2, width: 3 });
    let glyphs = Glyphs::classic();
    assert_eq!(board_row(&board, 0, &glyphs), "<! . . .!>");
    assert_eq!(
        board_part(&board, &glyphs),
        strings(&["<! . . .!>", "<! . . .!>", "<!======!>", r"  \/\/\/  "])
    );
}

#[test]
fn board_without_columns_or_rows() {
    let glyphs = Glyphs::classic();
    assert_eq!(
        board_part(&Board::new(Size { height: 1, width: 0 }), &glyphs),
        strings(&["<!!>", "<!!>", "    "])
    );
    assert_eq!(
        board_part(&Board::new(Size { height: 0, width: 2 }), &glyphs),
        strings(&["<!====!>", r"  \/\/  "])
    );
}

#[test]
fn board_with_other_glyphs() {
    let glyphs = Glyphs {
        empty_cell: ['_', '_'],
        figure_cell: ['#', '#'],
        left_border: ['|', ' '],
        right_border: [' ', '|'],
        bottom_border: ['-', '-'],
        bottom_closing: ['^', '^'],
        bottom_closing_left_border: ['+', '+'],
        bottom_closing_right_border: ['*', '*'],
    };
    assert_eq!(
        board_part(&Board::new(Size { height: 1, width: 2 }), &glyphs),
        strings(&["| ____ |", "| ---- |", "++^^^^**"])
    );
}

#[test]
fn classic_glyphs() {
    let glyphs = Glyphs::classic();
    assert_eq!(glyphs.empty_cell, [' ', '.']);
    assert_eq!(glyphs.figure_cell, ['[', ']']);
    assert_eq!(glyphs.left_border, ['<', '!']);
    assert_eq!(glyphs.right_border, ['!', '>']);
    assert_eq!(glyphs.bottom_border, ['=', '=']);
    assert_eq!(glyphs.bottom_closing, ['\\', '/']);
    assert_eq!(glyphs.bottom_closing_left_border, [' ', ' ']);
    assert_eq!(glyphs.bottom_closing_right_border, [' ', ' ']);
}

#[test]
fn statistics_lines() {
    assert_eq!(
        statistics_part(1, 0, 0),
        strings(&[
            "УРОВЕНЬ: 1   ",
            "ВРЕМЯ:   0:00",
            "СЧЁТ:    0   ",
            "             ",
            "    [][][]   ",
            "    []       ",
        ])
    );
    assert_eq!(
        statistics_part(12, 754, 65535),
        strings(&[
            "УРОВЕНЬ: 12   ",
            "ВРЕМЯ:   12:34",
            "СЧЁТ:    65535",
            "              ",
            "     [][][]   ",
            "     []       ",
        ])
    );
}

#[test]
fn whole_frame() {
    let state = GameState::with_figures(
        Figure::variant(FigureKind::T),
        Figure::variant(FigureKind::I),
        1_000,
    );
    let lines = state.update_gui(1_000 + 61_500_000_000);
    assert_eq!(lines.len(), 17);
    assert_eq!(lines[0], "УРОВЕНЬ: 1     <! . . . . . . . . . .!>");
    assert_eq!(lines[1], "ВРЕМЯ:   1:01  <! . . . . . . . . . .!>");
    assert_eq!(lines[2], "СЧЁТ:    0     <! . . . . . . . . . .!>");
    assert_eq!(lines[3], "               <! . . . . . . . . . .!>");
    assert_eq!(lines[4], "    [][][]     <! . . . . . . . . . .!>");
    assert_eq!(lines[5], "    []         <! . . . . . . . . . .!>");
    for row in 6..15 {
        assert_eq!(lines[row], "               <! . . . . . . . . . .!>");
    }
    assert_eq!(lines[15], "               <!====================!>");
    assert_eq!(lines[16], r"                 \/\/\/\/\/\/\/\/\/\/  ");
}

#[test]
fn frame_before_the_round_started_shows_no_time() {
    let state = GameState::with_figures(
        Figure::variant(FigureKind::O),
        Figure::variant(FigureKind::O),
        5_000_000_000,
    );
    let lines = state.update_gui(0);
    assert_eq!(lines[1], "ВРЕМЯ:   0:00  <! . . . . . . . . . .!>");
    let later = state.update_gui(5_999_999_999);
    assert_eq!(later[1], "ВРЕМЯ:   0:00  <! . . . . . . . . . .!>");
    let second = state.update_gui(6_000_000_000);
    assert_eq!(second[1], "ВРЕМЯ:   0:01  <! . . . . . . . . . .!>");
}

#[test]
fn occupied_cells_are_drawn() {
    let mut board = Board::new(Size { height: 2, width: 3 });
    board.set(0, 1, true);
    board.set(1, 0, true);
    board.set(1, 2, true);
    let glyphs = Glyphs::classic();
    assert_eq!(board_row(&board, 0, &glyphs), "<! .[] .!>");
    assert_eq!(board_row(&board, 1, &glyphs), "<![] .[]!>");
    assert_eq!(
        board_part(&board, &glyphs),
        strings(&["<! .[] .!>", "<![] .[]!>", "<!======!>", r"  \/\/\/  "])
    );
}

#[test]
fn frame_shows_the_cells_of_the_field() {
    let mut state = GameState::with_figures(
        Figure::variant(FigureKind::S),
        Figure::variant(FigureKind::Z),
        0,
    );
    state.board.set(14, 0, true);
    state.board.set(14, 9, true);
    state.lines_hit = 4;
    state.score = 120;
    let lines = state.update_gui(125_000_000_000);
    assert_eq!(lines[0], "УРОВЕНЬ: 5     <! . . . . . . . . . .!>");
    assert_eq!(lines[1], "ВРЕМЯ:   2:05  <! . . . . . . . . . .!>");
    assert_eq!(lines[2], "СЧЁТ:    120   <! . . . . . . . . . .!>");
    assert_eq!(lines[14], "               <![] . . . . . . . .[]!>");
}
