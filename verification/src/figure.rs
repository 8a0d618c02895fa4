//! The seven pieces: each a bit-mask of at most eight cells over its
//! bounding box.

use vstd::prelude::*;
use vstd::arithmetic::div_mod::{lemma_fundamental_div_mod, lemma_fundamental_div_mod_converse};
use rand::seq::IndexedRandom;
use crate::board::lemma_index_in_range;
use crate::direction::Direction;
use crate::geometry::Size;

verus! {

/// The names of the seven pieces.
#[derive(Debug, Clone, Copy, PartialEq, Eq, Structural)]
pub enum FigureKind {
    I,
    J,
    L,
    T,
    S,
    Z,
    O,
}

/// The shape of a piece: its bounding box and, row after row, which cells
/// of the box it fills. Cell `i` is bit `i` of the mask, lowest bit first.
#[derive(Debug, Clone, Copy, PartialEq, Eq, Structural)]
pub struct Figure {
    size: Size,
    cells: u8,
}

/// Whether bit `i` of `mask` is set; no bit is set outside `0..8`.
pub open spec fn mask_bit(mask: u8, i: int) -> bool {
    0 <= i < 8 && (mask >> (i as u8)) & 1u8 == 1u8
}

/// The bounding box of each piece.
pub open spec fn shape_size(kind: FigureKind) -> Size {
    match kind {
        FigureKind::I => Size { height: 4, width: 1 },
        FigureKind::J => Size { height: 3, width: 2 },
        FigureKind::L => Size { height: 3, width: 2 },
        FigureKind::T => Size { height: 2, width: 3 },
        FigureKind::S => Size { height: 2, width: 3 },
        FigureKind::Z => Size { height: 2, width: 3 },
        FigureKind::O => Size { height: 2, width: 2 },
    }
}

/// The cells of each piece, row after row.
pub open spec fn shape_cells(kind: FigureKind) -> Seq<bool> {
    match kind {
        FigureKind::I => seq![true, true, true, true],
        FigureKind::J => seq![false, true, false, true, true, true],
        FigureKind::L => seq![true, false, true, false, true, true],
        FigureKind::T => seq![true, true, true, false, true, false],
        FigureKind::S => seq![false, true, true, true, true, false],
        FigureKind::Z => seq![true, true, false, false, true, true],
        FigureKind::O => seq![true, true, true, true],
    }
}

/// The bounding box of a shape after a quarter turn: as high as it was wide,
/// as wide as it was high.
pub open spec fn turned_size(size: Size) -> Size {
    Size { height: size.width, width: size.height }
}

/// The cell of a shape that a quarter turn clockwise brings to cell `i`: the
/// cell at `row` and `col` after the turn is the one that stood at
/// `height - 1 - col` and `row`.
pub open spec fn clockwise_source(size: Size, i: int) -> int {
    let height = size.height as int;
    let width = size.width as int;
    (height - 1 - i % height) * width + i / height
}

/// The cell of a shape that a quarter turn counter-clockwise brings to cell
/// `i`: the cell at `row` and `col` after the turn is the one that stood at
/// `col` and `width - 1 - row`.
pub open spec fn counter_clockwise_source(size: Size, i: int) -> int {
    let height = size.height as int;
    let width = size.width as int;
    (i % height) * width + (width - 1 - i / height)
}

/// The cell of a shape that a quarter turn brings to cell `i`.
pub open spec fn turn_source(size: Size, clockwise: bool, i: int) -> int {
    if clockwise {
        clockwise_source(size, i)
    } else {
        counter_clockwise_source(size, i)
    }
}

/// The cells of a shape after a quarter turn, row after row of the turned
/// box.
pub open spec fn cells_turned(size: Size, cells: Seq<bool>, clockwise: bool) -> Seq<bool> {
    Seq::new(cells.len(), |i: int| cells[turn_source(size, clockwise, i)])
}

/// The bounding box of a shape that faces `direction`, where `size` is the
/// box of the shape as it faces south.
pub open spec fn size_facing(size: Size, direction: Direction) -> Size {
    match direction {
        Direction::South | Direction::North => size,
        Direction::East | Direction::West => turned_size(size),
    }
}

/// The cells of a shape that faces `direction`, where `cells` are those of
/// the shape as it faces south: one quarter turn clockwise for each quarter
/// turn that leads from south to `direction`.
pub open spec fn cells_facing(size: Size, cells: Seq<bool>, direction: Direction) -> Seq<bool> {
    let once = cells_turned(size, cells, true);
    let twice = cells_turned(turned_size(size), once, true);
    match direction {
        Direction::South => cells,
        Direction::East => once,
        Direction::North => twice,
        Direction::West => cells_turned(size, twice, true),
    }
}

impl Figure {
    /// The box has at most eight cells, and the mask has no bit outside it.
    #[verifier::type_invariant]
    pub closed spec fn consistent(&self) -> bool {
        &&& self.size.spec_area() <= 8
        &&& forall|i: int| self.size.spec_area() <= i < 8 ==> !mask_bit(self.cells, i)
    }

    /// The bounding box.
    pub closed spec fn spec_size(&self) -> Size {
        self.size
    }

    /// The cells of the bounding box, row after row: one for each cell of
    /// the box.
    pub closed spec fn cells(&self) -> Seq<bool> {
        Seq::new(self.size.spec_area() as nat, |i: int| mask_bit(self.cells, i))
    }

    /// The piece of the given name.
    pub closed spec fn spec_variant(kind: FigureKind) -> Figure {
        match kind {
            FigureKind::I => Figure { size: shape_size(kind), cells: 0x0f },
            FigureKind::J => Figure { size: shape_size(kind), cells: 0x3a },
            FigureKind::L => Figure { size: shape_size(kind), cells: 0x35 },
            FigureKind::T => Figure { size: shape_size(kind), cells: 0x17 },
            FigureKind::S => Figure { size: shape_size(kind), cells: 0x1e },
            FigureKind::Z => Figure { size: shape_size(kind), cells: 0x33 },
            FigureKind::O => Figure { size: shape_size(kind), cells: 0x0f },
        }
    }

    /// Whether the shape is one of the seven pieces.
    pub open spec fn is_variant(&self) -> bool {
        exists|kind: FigureKind| *self == Figure::spec_variant(kind)
    }

    /// The seven pieces, in the order I, J, L, T, S, Z, O.
    pub open spec fn spec_variants() -> Seq<Figure> {
        seq![
            Figure::spec_variant(FigureKind::I),
            Figure::spec_variant(FigureKind::J),
            Figure::spec_variant(FigureKind::L),
            Figure::spec_variant(FigureKind::T),
            Figure::spec_variant(FigureKind::S),
            Figure::spec_variant(FigureKind::Z),
            Figure::spec_variant(FigureKind::O),
        ]
    }

    /// The piece of the given name.
    pub fn variant(kind: FigureKind) -> (figure: Figure)
        ensures
            figure == Figure::spec_variant(kind),
            figure.spec_size() == shape_size(kind),
            figure.cells() == shape_cells(kind),
    {
        proof {
            lemma_variant_shape(kind);
            lemma_variant_masks();
        }
        match kind {
            FigureKind::I => Figure { size: Size { height: 4, width: 1 }, cells: 0x0f },
            FigureKind::J => Figure { size: Size { height: 3, width: 2 }, cells: 0x3a },
            FigureKind::L => Figure { size: Size { height: 3, width: 2 }, cells: 0x35 },
            FigureKind::T => Figure { size: Size { height: 2, width: 3 }, cells: 0x17 },
            FigureKind::S => Figure { size: Size { height: 2, width: 3 }, cells: 0x1e },
            FigureKind::Z => Figure { size: Size { height: 2, width: 3 }, cells: 0x33 },
            FigureKind::O => Figure { size: Size { height: 2, width: 2 }, cells: 0x0f },
        }
    }

    /// The seven pieces, in the order I, J, L, T, S, Z, O.
    pub fn variants() -> (all: [Figure; 7])
        ensures
            all@ == Figure::spec_variants(),
    {
        let all = [
            Figure::variant(FigureKind::I),
            Figure::variant(FigureKind::J),
            Figure::variant(FigureKind::L),
            Figure::variant(FigureKind::T),
            Figure::variant(FigureKind::S),
            Figure::variant(FigureKind::Z),
            Figure::variant(FigureKind::O),
        ];
        all
    }

    /// One of the seven pieces, drawn at random.
    pub fn get_random() -> (figure: Figure)
        ensures
            figure.is_variant(),
    {
        let all = Figure::variants();
        choose_one(&all)
    }

    /// The bounding box, which has one cell for each cell of the shape.
    pub fn size(&self) -> (size: Size)
        ensures
            size == self.spec_size(),
            self.cells().len() == size.spec_area(),
            size.spec_area() <= 8,
    {
        proof {
            use_type_invariant(self);
        }
        self.size
    }

    /// Whether the shape fills the cell at `row` and `col` of its box.
    pub fn cell(&self, row: usize, col: usize) -> (filled: bool)
        requires
            row < self.spec_size().height,
            col < self.spec_size().width,
        ensures
            filled == self.cells()[self.spec_size().spec_index(row as int, col as int)],
    {
        proof {
            use_type_invariant(self);
            lemma_index_in_range(
                self.size.height as int,
                self.size.width as int,
                row as int,
                col as int,
            );
        }
        let index = row * self.size.width + col;
        let shift = index as u8;
        (self.cells >> shift) & 1u8 == 1u8
    }

    /// The shape after a quarter turn, clockwise or not.
    pub fn rotated(&self, clockwise: bool) -> (turned: Figure)
        ensures
            turned.spec_size() == turned_size(self.spec_size()),
            turned.cells() == cells_turned(self.spec_size(), self.cells(), clockwise),
    {
        proof {
            use_type_invariant(self);
        }
        let height = self.size.height;
        let width = self.size.width;
        let area = self.size.area();
        assert(width * height == height * width) by (nonlinear_arith);
        let mut mask: u8 = 0;
        let mut i: usize = 0;
        assert(forall|k: u8| k < 8 ==> (0u8 >> k) & 1u8 == 0u8) by (bit_vector);
        while i < area
            invariant
                i <= area <= 8,
                area == height * width,
                height == self.spec_size().height,
                width == self.spec_size().width,
                self.cells().len() == area,
                forall|k: int|
                    0 <= k < 8 ==> #[trigger] mask_bit(mask, k) == (k < i
                        && self.cells()[turn_source(self.spec_size(), clockwise, k)]),
            decreases area - i,
        {
            assert(height > 0 && width > 0) by (nonlinear_arith)
                requires
                    i < height * width,
            ;
            let row = i / height;
            let col = i % height;
            proof {
                lemma_fundamental_div_mod(i as int, height as int);
                assert(row < width) by (nonlinear_arith)
                    requires
                        i == height * row + col,
                        i < height * width,
                        0 <= col,
                        height > 0,
                ;
            }
            let filled = if clockwise {
                self.cell(height - 1 - col, row)
            } else {
                self.cell(col, width - 1 - row)
            };
            assert(filled == self.cells()[turn_source(self.spec_size(), clockwise, i as int)]);
            if filled {
                let shift = i as u8;
                let ghost before = mask;
                mask = mask | (1u8 << shift);
                assert(forall|k: u8|
                    k < 8 && shift < 8 ==> (((before | (1u8 << shift)) >> k) & 1u8 == 1u8 <==> (k
                        == shift || (before >> k) & 1u8 == 1u8))) by (bit_vector);
                assert forall|k: int| 0 <= k < 8 implies #[trigger] mask_bit(mask, k) == (k < i + 1
                    && self.cells()[turn_source(self.spec_size(), clockwise, k)]) by {
                    assert(mask_bit(before, k) == (k < i && self.cells()[turn_source(
                        self.spec_size(),
                        clockwise,
                        k,
                    )]));
                }
            }
            i += 1;
        }
        Figure { size: Size { height: width, width: height }, cells: mask }
    }

    /// The shape as it faces `direction`, where `self` is the shape as it
    /// faces south.
    pub fn facing(&self, direction: Direction) -> (turned: Figure)
        ensures
            turned.spec_size() == size_facing(self.spec_size(), direction),
            turned.cells() == cells_facing(self.spec_size(), self.cells(), direction),
    {
        match direction {
            Direction::South => *self,
            Direction::East => self.rotated(true),
            Direction::North => self.rotated(true).rotated(true),
            Direction::West => self.rotated(true).rotated(true).rotated(true),
        }
    }
}

/// The bits of the seven masks.
proof fn lemma_variant_masks()
    ensures
        forall|i: int| #[trigger] mask_bit(0x0f, i) <==> 0 <= i < 4,
        forall|i: int| #[trigger] mask_bit(0x3a, i) <==> i == 1 || i == 3 || i == 4 || i == 5,
        forall|i: int| #[trigger] mask_bit(0x35, i) <==> i == 0 || i == 2 || i == 4 || i == 5,
        forall|i: int| #[trigger] mask_bit(0x17, i) <==> i == 0 || i == 1 || i == 2 || i == 4,
        forall|i: int| #[trigger] mask_bit(0x1e, i) <==> i == 1 || i == 2 || i == 3 || i == 4,
        forall|i: int| #[trigger] mask_bit(0x33, i) <==> i == 0 || i == 1 || i == 4 || i == 5,
{
    assert(forall|s: u8| s < 8 ==> ((0x0fu8 >> s) & 1u8 == 1u8 <==> s < 4)) by (bit_vector);
    assert(forall|s: u8| s < 8 ==> ((0x3au8 >> s) & 1u8 == 1u8 <==> s == 1 || s == 3 || s == 4 || s == 5)) by (bit_vector);
    assert(forall|s: u8| s < 8 ==> ((0x35u8 >> s) & 1u8 == 1u8 <==> s == 0 || s == 2 || s == 4 || s == 5)) by (bit_vector);
    assert(forall|s: u8| s < 8 ==> ((0x17u8 >> s) & 1u8 == 1u8 <==> s == 0 || s == 1 || s == 2 || s == 4)) by (bit_vector);
    assert(forall|s: u8| s < 8 ==> ((0x1eu8 >> s) & 1u8 == 1u8 <==> s == 1 || s == 2 || s == 3 || s == 4)) by (bit_vector);
    assert(forall|s: u8| s < 8 ==> ((0x33u8 >> s) & 1u8 == 1u8 <==> s == 0 || s == 1 || s == 4 || s == 5)) by (bit_vector);
}

/// Each of the seven pieces has the bounding box and the cells that its
/// name stands for, one cell for each cell of the box, and no more than
/// eight.
pub proof fn lemma_variant_shape(kind: FigureKind)
    ensures
        Figure::spec_variant(kind).spec_size() == shape_size(kind),
        Figure::spec_variant(kind).cells() == shape_cells(kind),
        Figure::spec_variant(kind).cells().len() == shape_size(kind).height * shape_size(kind).width,
        Figure::spec_variant(kind).cells().len() <= 8,
        Figure::spec_variant(kind).consistent(),
{
    lemma_variant_masks();
    let figure = Figure::spec_variant(kind);
    let cells = shape_cells(kind);
    match kind {
        FigureKind::I => {
            assert(figure.size.height == 4 && figure.size.width == 1 && cells.len() == 4);
        },
        FigureKind::J => {
            assert(figure.size.height == 3 && figure.size.width == 2 && cells.len() == 6);
        },
        FigureKind::L => {
            assert(figure.size.height == 3 && figure.size.width == 2 && cells.len() == 6);
        },
        FigureKind::T => {
            assert(figure.size.height == 2 && figure.size.width == 3 && cells.len() == 6);
        },
        FigureKind::S => {
            assert(figure.size.height == 2 && figure.size.width == 3 && cells.len() == 6);
        },
        FigureKind::Z => {
            assert(figure.size.height == 2 && figure.size.width == 3 && cells.len() == 6);
        },
        FigureKind::O => {
            assert(figure.size.height == 2 && figure.size.width == 2 && cells.len() == 4);
        },
    }
    assert(figure.size.spec_area() == cells.len());
    assert forall|i: int| 0 <= i < cells.len() implies figure.cells()[i] == cells[i] by {}
}

/// The cell at `row` and `col` of a box lies at `row * width + col`, and
/// that index gives back the row and the column.
proof fn lemma_row_and_col(row: int, col: int, width: int)
    requires
        0 <= row,
        0 <= col < width,
    ensures
        (row * width + col) / width == row,
        (row * width + col) % width == col,
{
    lemma_fundamental_div_mod_converse(row * width + col, width, row, col);
}

/// Two quarter turns clockwise bring the last cell to the first place and
/// the first to the last: the cells stand in the opposite order, in a box
/// of the same size.
pub proof fn lemma_two_turns_reverse(size: Size, cells: Seq<bool>)
    requires
        cells.len() == size.spec_area(),
    ensures
        turned_size(turned_size(size)) == size,
        cells_turned(turned_size(size), cells_turned(size, cells, true), true)
            == cells.reverse(),
        cells_turned(turned_size(size), cells_turned(size, cells, false), false)
            == cells.reverse(),
{
    let height = size.height as int;
    let width = size.width as int;
    let once = cells_turned(size, cells, true);
    let twice = cells_turned(turned_size(size), once, true);
    let back = cells_turned(size, cells, false);
    let back_twice = cells_turned(turned_size(size), back, false);
    assert forall|k: int| 0 <= k < cells.len() implies twice[k] == cells[cells.len() - 1 - k]
        && back_twice[k] == cells[cells.len() - 1 - k] by {
        assert(height > 0 && width > 0) by (nonlinear_arith)
            requires
                0 <= k < height * width,
                height >= 0,
                width >= 0,
        ;
        lemma_fundamental_div_mod(k, width);
        let row = k / width;
        let col = k % width;
        assert(0 <= row < height) by (nonlinear_arith)
            requires
                k == width * row + col,
                0 <= k < height * width,
                0 <= col < width,
        ;
        assert(height * width - 1 - k == (height - 1 - row) * width + (width - 1 - col))
            by (nonlinear_arith)
            requires
                k == width * row + col,
        ;
        assert(width * height == height * width) by (nonlinear_arith);
        lemma_index_in_range(width, height, width - 1 - col, row);
        lemma_row_and_col(width - 1 - col, row, height);
        lemma_index_in_range(width, height, col, height - 1 - row);
        lemma_row_and_col(col, height - 1 - row, height);
    }
}

/// Four quarter turns clockwise give back the shape: its box and each of
/// its cells.
pub proof fn lemma_four_turns_restore(size: Size, cells: Seq<bool>)
    requires
        cells.len() == size.spec_area(),
    ensures
        size_facing(size, Direction::South) == size,
        cells_turned(turned_size(size), cells_facing(size, cells, Direction::West), true)
            == cells,
{
    lemma_two_turns_reverse(size, cells);
    lemma_two_turns_reverse(size, cells.reverse());
}

/// A quarter turn one way undoes a quarter turn the other way.
pub proof fn lemma_opposite_turns_cancel(size: Size, cells: Seq<bool>)
    requires
        cells.len() == size.spec_area(),
    ensures
        cells_turned(turned_size(size), cells_turned(size, cells, true), false) == cells,
        cells_turned(turned_size(size), cells_turned(size, cells, false), true) == cells,
{
    let height = size.height as int;
    let width = size.width as int;
    let there = cells_turned(size, cells, true);
    let there_back = cells_turned(turned_size(size), there, false);
    let back = cells_turned(size, cells, false);
    let back_there = cells_turned(turned_size(size), back, true);
    assert forall|k: int| 0 <= k < cells.len() implies there_back[k] == cells[k] && back_there[k]
        == cells[k] by {
        assert(height > 0 && width > 0) by (nonlinear_arith)
            requires
                0 <= k < height * width,
                height >= 0,
                width >= 0,
        ;
        lemma_fundamental_div_mod(k, width);
        let row = k / width;
        let col = k % width;
        assert(0 <= row < height) by (nonlinear_arith)
            requires
                k == width * row + col,
                0 <= k < height * width,
                0 <= col < width,
        ;
        assert(k == row * width + col) by (nonlinear_arith)
            requires
                k == width * row + col,
        ;
        assert(width * height == height * width) by (nonlinear_arith);
        lemma_index_in_range(width, height, col, height - 1 - row);
        lemma_row_and_col(col, height - 1 - row, height);
        lemma_index_in_range(width, height, width - 1 - col, row);
        lemma_row_and_col(width - 1 - col, row, height);
    }
}

/// Calls `IndexedRandom::choose` of `rand` on the seven shapes, with the
/// generator of the thread (`rand::rng`): the result is one of the seven,
/// whichever the generator picks. `choose` returns nothing only for an empty
/// slice, which this one is not.
#[verifier::external_body]
fn choose_one(all: &[Figure; 7]) -> (figure: Figure)
    ensures
        all@.contains(figure),
{
    let mut generator = rand::rng();
    *all.choose(&mut generator).unwrap()
}

} // verus!
