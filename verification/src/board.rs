//! The playing field: a rectangle of cells, one bit each.

use vstd::prelude::*;
use crate::bits::{bit_at, bits_of, cleared_bits, max_bits, set_bit, Bits};
use crate::geometry::Size;

verus! {

/// The playing field. A set bit is an occupied cell; the cell at `row` and
/// `col` is the bit at `row * width + col`.
pub struct Board {
    size: Size,
    cells: Bits,
}

/// `row * width + col` stays inside a field of `height` rows.
pub proof fn lemma_index_in_range(height: int, width: int, row: int, col: int)
    requires
        0 <= row < height,
        0 <= col < width,
    ensures
        0 <= row * width <= row * width + col < height * width,
{
    assert(row * width >= 0) by (nonlinear_arith)
        requires
            row >= 0,
            width >= 0,
    ;
    assert((row + 1) * width <= height * width) by (nonlinear_arith)
        requires
            row + 1 <= height,
            width >= 0,
    ;
    assert((row + 1) * width == row * width + width) by (nonlinear_arith);
}

impl Board {
    /// The field has exactly one bit for each cell of its size.
    #[verifier::type_invariant]
    pub closed spec fn consistent(&self) -> bool {
        &&& bits_of(self.cells).len() == self.size.spec_area()
        &&& self.size.spec_area() <= max_bits()
    }

    /// The size that the field was made with.
    pub closed spec fn spec_size(&self) -> Size {
        self.size
    }

    /// The cells of the field, row after row.
    pub closed spec fn cells(&self) -> Seq<bool> {
        bits_of(self.cells)
    }

    /// Whether the cell at `row` and `col` is occupied.
    pub open spec fn occupied(&self, row: int, col: int) -> bool {
        self.cells()[self.spec_size().spec_index(row, col)]
    }

    /// An empty field of the given size.
    pub fn new(size: Size) -> (board: Board)
        requires
            size.spec_area() <= max_bits(),
        ensures
            board.spec_size() == size,
            board.cells().len() == size.spec_area(),
            forall|i: int| 0 <= i < board.cells().len() ==> !(#[trigger] board.cells()[i]),
    {
        Board { size, cells: cleared_bits(size.area()) }
    }

    /// The size of the field, which is also the number of its cells.
    pub fn size(&self) -> (size: Size)
        ensures
            size == self.spec_size(),
            self.cells().len() == size.spec_area(),
            size.spec_area() <= max_bits(),
    {
        proof {
            use_type_invariant(self);
        }
        self.size
    }

    /// Whether the cell at `row` and `col` is occupied.
    pub fn is_occupied(&self, row: usize, col: usize) -> (bit: bool)
        requires
            row < self.spec_size().height,
            col < self.spec_size().width,
        ensures
            bit == self.occupied(row as int, col as int),
    {
        proof {
            use_type_invariant(self);
            lemma_index_in_range(
                self.size.height as int,
                self.size.width as int,
                row as int,
                col as int,
            );
        }
        bit_at(&self.cells, row * self.size.width + col)
    }

    /// Marks the cell at `row` and `col` as occupied or as free. No other
    /// cell changes, and the size stays.
    pub fn set(&mut self, row: usize, col: usize, occupied: bool)
        requires
            row < old(self).spec_size().height,
            col < old(self).spec_size().width,
        ensures
            final(self).spec_size() == old(self).spec_size(),
            final(self).cells() == old(self).cells().update(
                old(self).spec_size().spec_index(row as int, col as int),
                occupied,
            ),
    {
        proof {
            use_type_invariant(&*self);
            lemma_index_in_range(
                self.size.height as int,
                self.size.width as int,
                row as int,
                col as int,
            );
        }
        set_bit(&mut self.cells, row * self.size.width + col, occupied);
    }
}

} // verus!
