//! Drawing a frame as lines of text: the counters on the left, the playing
//! field on the right, line beside line.

use vstd::prelude::*;
use vstd::string::StringExecFns;
use itertools::EitherOrBoth;
use itertools::Itertools;
use crate::board::{lemma_index_in_range, Board};
use crate::frame::NANOS_PER_SECOND;
use crate::game::GameState;
use crate::text::{
    center, centered, decimal, lemma_max_width, max_width, padded, push_decimal, push_padded,
    push_spaces, required_width, spaces, texts, two_digits,
};

verus! {

/// The two characters that draw one cell.
pub type Pixel = [char; 2];

/// The characters that the playing field is drawn with.
#[derive(Debug, Clone, Copy)]
pub struct Glyphs {
    pub empty_cell: Pixel,
    pub figure_cell: Pixel,
    pub left_border: Pixel,
    pub right_border: Pixel,
    pub bottom_border: Pixel,
    pub bottom_closing: Pixel,
    pub bottom_closing_left_border: Pixel,
    pub bottom_closing_right_border: Pixel,
}

/// The two characters of a cell as text.
pub open spec fn pixel_text(pixel: Pixel) -> Seq<char> {
    seq![pixel[0], pixel[1]]
}

/// `n` cells, all drawn as `pixel`.
pub open spec fn repeated(pixel: Pixel, n: nat) -> Seq<char>
    decreases n,
{
    if n == 0 {
        Seq::empty()
    } else {
        repeated(pixel, (n - 1) as nat) + pixel_text(pixel)
    }
}

/// The cells of a row, each drawn as occupied or as empty.
pub open spec fn cells_text(cells: Seq<bool>, glyphs: Glyphs) -> Seq<char>
    decreases cells.len(),
{
    if cells.len() == 0 {
        Seq::empty()
    } else {
        cells_text(cells.drop_last(), glyphs) + pixel_text(
            if cells.last() {
                glyphs.figure_cell
            } else {
                glyphs.empty_cell
            },
        )
    }
}

/// A line between its two borders.
pub open spec fn framed(left: Pixel, middle: Seq<char>, right: Pixel) -> Seq<char> {
    pixel_text(left) + middle + pixel_text(right)
}

/// The cells of one row of the field.
pub open spec fn row_cells(board: Board, row: int) -> Seq<bool> {
    let width = board.spec_size().width as int;
    board.cells().subrange(row * width, row * width + width)
}

/// The line that draws one row of the field.
pub open spec fn board_row_text(board: Board, row: int, glyphs: Glyphs) -> Seq<char> {
    framed(glyphs.left_border, cells_text(row_cells(board, row), glyphs), glyphs.right_border)
}

/// The line under the last row of the field.
pub open spec fn bottom_text(board: Board, glyphs: Glyphs) -> Seq<char> {
    framed(
        glyphs.left_border,
        repeated(glyphs.bottom_border, board.spec_size().width as nat),
        glyphs.right_border,
    )
}

/// The line that closes the drawing of the field.
pub open spec fn closing_text(board: Board, glyphs: Glyphs) -> Seq<char> {
    framed(
        glyphs.bottom_closing_left_border,
        repeated(glyphs.bottom_closing, board.spec_size().width as nat),
        glyphs.bottom_closing_right_border,
    )
}

/// The drawing of the field: a line for each row, top to bottom, then the
/// bottom line and the closing line.
pub open spec fn board_lines(board: Board, glyphs: Glyphs) -> Seq<Seq<char>> {
    let height = board.spec_size().height as int;
    Seq::new(
        (height + 2) as nat,
        |i: int|
            if i < height {
                board_row_text(board, i, glyphs)
            } else if i == height {
                bottom_text(board, glyphs)
            } else {
                closing_text(board, glyphs)
            },
    )
}

/// A time in whole seconds as minutes, a colon, and two digits of seconds.
pub open spec fn clock_text(seconds: nat) -> Seq<char> {
    decimal(seconds / 60) + seq![':'] + two_digits(seconds % 60)
}

/// The names of the three counters: level, time and score.
pub open spec fn label_texts() -> Seq<Seq<char>> {
    seq!["УРОВЕНЬ:"@, "ВРЕМЯ:"@, "СЧЁТ:"@]
}

/// The three counters as text.
pub open spec fn value_texts(level: nat, seconds: nat, score: nat) -> Seq<Seq<char>> {
    seq![decimal(level), clock_text(seconds), decimal(score)]
}

/// A line for each counter: its name, filled with blanks to the width of the
/// longest name, a blank, and its value, filled with blanks to the width of
/// the longest value.
pub open spec fn counter_lines(labels: Seq<Seq<char>>, values: Seq<Seq<char>>) -> Seq<Seq<char>> {
    Seq::new(
        labels.len(),
        |i: int|
            padded(labels[i], max_width(labels)) + seq![' '] + padded(values[i], max_width(values)),
    )
}

/// The picture shown under the counters, the same in every frame.
pub open spec fn preview_texts() -> Seq<Seq<char>> {
    seq!["  [][][]"@, "  []    "@]
}

/// The left block of a frame: the counter lines, a line of blanks as wide as
/// they are, and the picture, each of its lines centred in that width.
pub open spec fn statistics_lines(level: nat, seconds: nat, score: nat) -> Seq<Seq<char>> {
    let counters = counter_lines(label_texts(), value_texts(level, seconds, score));
    let width = max_width(counters);
    counters.push(spaces(width)) + Seq::new(
        preview_texts().len(),
        |i: int| centered(preview_texts()[i], width),
    )
}

/// The line of a block at `i`, the empty line where the block has none
/// there.
pub open spec fn line_or_empty(lines: Seq<Seq<char>>, i: int) -> Seq<char> {
    if 0 <= i < lines.len() {
        lines[i]
    } else {
        Seq::empty()
    }
}

/// Row `i` of two blocks side by side: the line of the left block, filled
/// with blanks to the width of that block, two blanks, and the line of the
/// right block, filled with blanks to the width of that block.
pub open spec fn composed_row(left: Seq<Seq<char>>, right: Seq<Seq<char>>, i: int) -> Seq<char> {
    padded(line_or_empty(left, i), max_width(left)) + seq![' ', ' '] + padded(
        line_or_empty(right, i),
        max_width(right),
    )
}

/// Two blocks side by side: as many rows as the longer block has lines.
pub open spec fn composed(left: Seq<Seq<char>>, right: Seq<Seq<char>>) -> Seq<Seq<char>> {
    Seq::new(
        if left.len() >= right.len() {
            left.len()
        } else {
            right.len()
        },
        |i: int| composed_row(left, right, i),
    )
}

/// The whole seconds from `start` to `now`, none where `now` is the
/// earlier.
pub open spec fn seconds_between(start: u64, now: u64) -> nat {
    if now >= start {
        ((now - start) / NANOS_PER_SECOND as int) as nat
    } else {
        0
    }
}

impl Glyphs {
    /// The glyphs of the classic look.
    pub open spec fn spec_classic() -> Glyphs {
        Glyphs {
            empty_cell: [' ', '.'],
            figure_cell: ['[', ']'],
            left_border: ['<', '!'],
            right_border: ['!', '>'],
            bottom_border: ['=', '='],
            bottom_closing: ['\\', '/'],
            bottom_closing_left_border: [' ', ' '],
            bottom_closing_right_border: [' ', ' '],
        }
    }

    /// The glyphs of the classic look.
    pub fn classic() -> (glyphs: Glyphs)
        ensures
            glyphs == Glyphs::spec_classic(),
    {
        Glyphs {
            empty_cell: [' ', '.'],
            figure_cell: ['[', ']'],
            left_border: ['<', '!'],
            right_border: ['!', '>'],
            bottom_border: ['=', '='],
            bottom_closing: ['\\', '/'],
            bottom_closing_left_border: [' ', ' '],
            bottom_closing_right_border: [' ', ' '],
        }
    }
}

/// Appends the two characters of a cell.
fn push_pixel(out: &mut String, pixel: &Pixel)
    ensures
        final(out)@ == old(out)@ + pixel_text(*pixel),
{
    out.push(pixel[0]);
    out.push(pixel[1]);
}

/// A line of `n` cells, all drawn as `middle`, between two borders.
fn ruled_line(left: &Pixel, middle: &Pixel, n: usize, right: &Pixel) -> (line: String)
    ensures
        line@ == framed(*left, repeated(*middle, n as nat), *right),
{
    let mut line = String::new();
    push_pixel(&mut line, left);
    let mut i: usize = 0;
    while i < n
        invariant
            i <= n,
            line@ == pixel_text(*left) + repeated(*middle, i as nat),
        decreases n - i,
    {
        push_pixel(&mut line, middle);
        i += 1;
    }
    push_pixel(&mut line, right);
    line
}

/// The line that draws one row of the field.
pub fn board_row(board: &Board, row: usize, glyphs: &Glyphs) -> (line: String)
    requires
        row < board.spec_size().height,
    ensures
        line@ == board_row_text(*board, row as int, *glyphs),
{
    let size = board.size();
    let mut line = String::new();
    push_pixel(&mut line, &glyphs.left_border);
    let ghost cells = row_cells(*board, row as int);
    let mut col: usize = 0;
    let ghost start = row as int * size.width as int;
    proof {
        if size.width > 0 {
            lemma_index_in_range(
                size.height as int,
                size.width as int,
                row as int,
                size.width - 1,
            );
        } else {
            assert(row as int * 0 == 0) by (nonlinear_arith);
            assert(size.height as int * 0 == 0) by (nonlinear_arith);
        }
    }
    while col < size.width
        invariant
            col <= size.width,
            size == board.spec_size(),
            row < size.height,
            start == row as int * size.width as int,
            0 <= start && start + size.width <= board.cells().len(),
            cells == board.cells().subrange(start, start + size.width),
            cells.len() == size.width,
            line@ == pixel_text(glyphs.left_border) + cells_text(cells.take(col as int), *glyphs),
        decreases size.width - col,
    {
        let occupied = board.is_occupied(row, col);
        proof {
            lemma_index_in_range(size.height as int, size.width as int, row as int, col as int);
            assert(cells.take(col + 1).drop_last() =~= cells.take(col as int));
        }
        if occupied {
            push_pixel(&mut line, &glyphs.figure_cell);
        } else {
            push_pixel(&mut line, &glyphs.empty_cell);
        }
        col += 1;
    }
    assert(cells.take(col as int) =~= cells);
    push_pixel(&mut line, &glyphs.right_border);
    line
}

/// The drawing of the field: a line for each row, top to bottom, then the
/// bottom line and the closing line.
pub fn board_part(board: &Board, glyphs: &Glyphs) -> (lines: Vec<String>)
    ensures
        texts(lines@) == board_lines(*board, *glyphs),
{
    let size = board.size();
    let mut lines: Vec<String> = Vec::new();
    let mut row: usize = 0;
    while row < size.height
        invariant
            row <= size.height,
            size == board.spec_size(),
            lines@.len() == row,
            forall|j: int| 0 <= j < row ==> (#[trigger] lines@[j])@ == board_row_text(*board, j, *glyphs),
        decreases size.height - row,
    {
        lines.push(board_row(board, row, glyphs));
        row += 1;
    }
    lines.push(ruled_line(&glyphs.left_border, &glyphs.bottom_border, size.width, &glyphs.right_border));
    lines.push(
        ruled_line(
            &glyphs.bottom_closing_left_border,
            &glyphs.bottom_closing,
            size.width,
            &glyphs.bottom_closing_right_border,
        ),
    );
    lines
}

/// A time in whole seconds as minutes, a colon, and two digits of seconds.
pub fn push_clock(out: &mut String, seconds: u64)
    ensures
        final(out)@ == old(out)@ + clock_text(seconds as nat),
{
    push_decimal(out, seconds / 60);
    out.push(':');
    let rest = seconds % 60;
    if rest < 10 {
        out.push('0');
        push_decimal(out, rest);
    } else {
        push_decimal(out, rest);
    }
}

/// The left block of a frame: the three counters, a line of blanks, and the
/// picture under them.
pub fn statistics_part(level: u32, seconds: u64, score: u16) -> (lines: Vec<String>)
    ensures
        texts(lines@) == statistics_lines(level as nat, seconds as nat, score as nat),
{
    let mut labels: Vec<String> = Vec::new();
    labels.push(String::from_str("УРОВЕНЬ:"));
    labels.push(String::from_str("ВРЕМЯ:"));
    labels.push(String::from_str("СЧЁТ:"));
    let mut level_text = String::new();
    push_decimal(&mut level_text, level as u64);
    let mut time_text = String::new();
    push_clock(&mut time_text, seconds);
    let mut score_text = String::new();
    push_decimal(&mut score_text, score as u64);
    let mut values: Vec<String> = Vec::new();
    values.push(level_text);
    values.push(time_text);
    values.push(score_text);
    assert(texts(labels@) =~= label_texts());
    assert(texts(values@) =~= value_texts(level as nat, seconds as nat, score as nat));
    let max_labels_width = required_width(&labels);
    let max_values_width = required_width(&values);

    let ghost counters = counter_lines(texts(labels@), texts(values@));
    let mut lines: Vec<String> = Vec::new();
    let mut i: usize = 0;
    while i < labels.len()
        invariant
            i <= labels.len(),
            labels.len() == values.len(),
            max_labels_width == max_width(texts(labels@)),
            max_values_width == max_width(texts(values@)),
            lines@.len() == i,
            counters == counter_lines(texts(labels@), texts(values@)),
            forall|j: int| 0 <= j < i ==> (#[trigger] lines@[j])@ == counters[j],
        decreases labels.len() - i,
    {
        let mut line = String::new();
        push_padded(&mut line, labels[i].as_str(), max_labels_width);
        line.push(' ');
        push_padded(&mut line, values[i].as_str(), max_values_width);
        lines.push(line);
        i += 1;
    }
    assert(texts(lines@) =~= counters);

    let mut next_figure_part: Vec<String> = Vec::new();
    next_figure_part.push(String::from_str("  [][][]"));
    next_figure_part.push(String::from_str("  []    "));

    let actual_width = required_width(&lines);
    let mut blank = String::new();
    push_spaces(&mut blank, actual_width);
    lines.push(blank);

    let mut k: usize = 0;
    while k < next_figure_part.len()
        invariant
            k <= next_figure_part.len(),
            texts(next_figure_part@) == preview_texts(),
            actual_width == max_width(counters),
            lines@.len() == counters.len() + 1 + k,
            forall|j: int| 0 <= j < counters.len() ==> (#[trigger] lines@[j])@ == counters[j],
            lines@[counters.len() as int]@ == spaces(actual_width as nat),
            forall|j: int|
                0 <= j < k ==> (#[trigger] lines@[counters.len() + 1 + j])@ == centered(
                    preview_texts()[j],
                    actual_width as nat,
                ),
        decreases next_figure_part.len() - k,
    {
        let line = center(next_figure_part[k].as_str(), actual_width);
        lines.push(line);
        k += 1;
    }
    proof {
        let expected = statistics_lines(level as nat, seconds as nat, score as nat);
        let got = texts(lines@);
        assert forall|j: int| 0 <= j < got.len() implies got[j] == expected[j] by {
            if j > counters.len() {
                let n = j - counters.len() - 1;
                assert(lines@[counters.len() + 1 + n]@ == centered(
                    preview_texts()[n],
                    actual_width as nat,
                ));
            }
        }
    }
    lines
}

/// Calls `Itertools::zip_longest` on the lines of two blocks and collects
/// what it yields: a pair for each index that either block has, holding the
/// line of each block at that index, or nothing where the block has ended.
#[verifier::external_body]
fn zip_longest_lines<'a>(left: &'a Vec<String>, right: &'a Vec<String>) -> (pairs: Vec<
    (Option<&'a String>, Option<&'a String>),
>)
    ensures
        pairs@.len() == if left@.len() >= right@.len() {
            left@.len()
        } else {
            right@.len()
        },
        forall|i: int|
            0 <= i < pairs@.len() ==> (#[trigger] pairs@[i]).0 == if i < left@.len() {
                Some(&left@[i])
            } else {
                None
            },
        forall|i: int|
            0 <= i < pairs@.len() ==> (#[trigger] pairs@[i]).1 == if i < right@.len() {
                Some(&right@[i])
            } else {
                None
            },
{
    left.iter().zip_longest(right.iter()).map(
        |pair|
            match pair {
                EitherOrBoth::Both(l, r) => (Some(l), Some(r)),
                EitherOrBoth::Left(l) => (Some(l), None),
                EitherOrBoth::Right(r) => (None, Some(r)),
            },
    ).collect()
}

/// Sets two blocks of lines side by side. Each block keeps its own width,
/// that of its longest line; two blanks stand between the blocks; the
/// shorter block goes on with empty lines.
pub fn compose(left: &Vec<String>, right: &Vec<String>) -> (rows: Vec<String>)
    ensures
        texts(rows@) == composed(texts(left@), texts(right@)),
{
    let left_width = required_width(left);
    let right_width = required_width(right);
    let pairs = zip_longest_lines(left, right);
    let mut rows: Vec<String> = Vec::new();
    let mut i: usize = 0;
    proof {
        reveal_strlit("");
    }
    while i < pairs.len()
        invariant
            i <= pairs.len(),
            ""@.len() == 0,
            left_width == max_width(texts(left@)),
            right_width == max_width(texts(right@)),
            pairs@.len() == composed(texts(left@), texts(right@)).len(),
            forall|j: int|
                0 <= j < pairs@.len() ==> (#[trigger] pairs@[j]).0 == if j < left@.len() {
                    Some(&left@[j])
                } else {
                    None
                },
            forall|j: int|
                0 <= j < pairs@.len() ==> (#[trigger] pairs@[j]).1 == if j < right@.len() {
                    Some(&right@[j])
                } else {
                    None
                },
            rows@.len() == i,
            forall|j: int|
                0 <= j < i ==> (#[trigger] rows@[j])@ == composed_row(
                    texts(left@),
                    texts(right@),
                    j,
                ),
        decreases pairs.len() - i,
    {
        let pair = pairs[i];
        let mut row = String::new();
        match pair.0 {
            Some(line) => {
                push_padded(&mut row, line.as_str(), left_width);
            },
            None => {
                push_padded(&mut row, "", left_width);
            },
        }
        row.push(' ');
        row.push(' ');
        match pair.1 {
            Some(line) => {
                push_padded(&mut row, line.as_str(), right_width);
            },
            None => {
                push_padded(&mut row, "", right_width);
            },
        }
        rows.push(row);
        i += 1;
    }
    rows
}

/// Two blocks side by side have as many rows as the longer block has lines,
/// and every row is as wide as the two blocks and the two blanks between
/// them.
pub proof fn lemma_composed_shape(left: Seq<Seq<char>>, right: Seq<Seq<char>>)
    ensures
        composed(left, right).len() >= left.len(),
        composed(left, right).len() >= right.len(),
        composed(left, right).len() == left.len() || composed(left, right).len() == right.len(),
        forall|i: int|
            0 <= i < composed(left, right).len() ==> (#[trigger] composed(left, right)[i]).len()
                == max_width(left) + 2 + max_width(right),
{
    lemma_max_width(left);
    lemma_max_width(right);
}

impl GameState {
    /// The frame to draw at `now`: the counters of the round on the left,
    /// the field in the classic look on the right. The time shown is that
    /// from the start of the round to `now`, in whole seconds.
    pub fn update_gui(&self, now: u64) -> (lines: Vec<String>)
        ensures
            texts(lines@) == composed(
                statistics_lines(
                    self.spec_level(),
                    seconds_between(self.start_time, now),
                    self.score as nat,
                ),
                board_lines(self.board, Glyphs::spec_classic()),
            ),
    {
        let round_total_seconds = if now >= self.start_time {
            (now - self.start_time) / NANOS_PER_SECOND
        } else {
            0
        };
        let statistics = statistics_part(self.get_level(), round_total_seconds, self.score);
        let glyphs = Glyphs::classic();
        let field = board_part(&self.board, &glyphs);
        compose(&statistics, &field)
    }
}

} // verus!
