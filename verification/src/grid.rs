//! Dimensions of a pixel grid and its dense row-major addressing.
//!
//! A grid of `width` columns and `height` rows has `width * height` slots.
//! The pixel in column `i` of row `j` lives in slot `i + j * width`, so rows
//! follow each other from top to bottom and each row runs from left to right.

use vstd::arithmetic::div_mod::{
    lemma_fundamental_div_mod, lemma_fundamental_div_mod_converse, lemma_mod_bound,
};
use vstd::arithmetic::mul::{lemma_mul_inequality, lemma_mul_is_commutative};
use vstd::prelude::*;

verus! {

/// Why a pair of extents cannot describe a pixel grid.
#[derive(Clone, Copy, Debug, PartialEq, Eq, Structural)]
pub enum DimensionError {
    /// The width is zero.
    ZeroWidth,
    /// The width is positive and the height is zero.
    ZeroHeight,
    /// Both extents are positive, but three bytes per pixel do not fit the
    /// address space.
    TooLarge,
}

impl DimensionError {
    /// The wording of [`DimensionError::message`].
    pub open spec fn text(self) -> Seq<char> {
        match self {
            DimensionError::ZeroWidth => "image width must be at least one pixel"@,
            DimensionError::ZeroHeight => "image height must be at least one pixel"@,
            DimensionError::TooLarge => "image is too large to address its bytes"@,
        }
    }

    /// Says in words what is wrong with the extents.
    pub fn message(&self) -> (words: String)
        ensures
            words@ == self.text(),
    {
        match self {
            DimensionError::ZeroWidth => "image width must be at least one pixel".to_owned(),
            DimensionError::ZeroHeight => "image height must be at least one pixel".to_owned(),
            DimensionError::TooLarge => "image is too large to address its bytes".to_owned(),
        }
    }
}

/// Whether `width` by `height` pixels, three bytes each, can be addressed.
pub open spec fn fits(width: int, height: int) -> bool {
    0 < width && 0 < height && 3 * (width * height) <= usize::MAX
}

/// The slot of column `i` in row `j` of a grid `width` columns wide.
pub open spec fn slot(width: int, i: int, j: int) -> int {
    i + j * width
}

/// The column of slot `k` in a grid `width` columns wide.
pub open spec fn column_of(width: int, k: int) -> int {
    k % width
}

/// The row of slot `k` in a grid `width` columns wide.
pub open spec fn row_of(width: int, k: int) -> int {
    k / width
}

/// Every cell of a grid has a slot below `width * height`.
pub proof fn lemma_slot_in_range(width: int, height: int, i: int, j: int)
    requires
        0 <= i < width,
        0 <= j < height,
    ensures
        0 <= j * width <= slot(width, i, j) < width * height,
{
    assert(0 <= j * width && j * width + width <= height * width) by (nonlinear_arith)
        requires
            0 <= j < height,
            0 < width,
    ;
    lemma_mul_is_commutative(width, height);
}

/// The column and the row of a cell's slot are the cell's own.
pub proof fn lemma_cell_of_slot(width: int, i: int, j: int)
    requires
        0 <= i < width,
    ensures
        column_of(width, slot(width, i, j)) == i,
        row_of(width, slot(width, i, j)) == j,
{
    lemma_fundamental_div_mod_converse(slot(width, i, j), width, j, i);
}

/// A slot is the slot of its column and row, and its column is inside the
/// grid's width.
pub proof fn lemma_slot_of_cell(width: int, k: int)
    requires
        0 < width,
    ensures
        0 <= column_of(width, k) < width,
        slot(width, column_of(width, k), row_of(width, k)) == k,
{
    lemma_mod_bound(k, width);
    lemma_fundamental_div_mod(k, width);
    lemma_mul_is_commutative(width, k / width);
}

/// A slot below `width * height` lies in a row of the grid.
pub proof fn lemma_row_in_range(width: int, height: int, k: int)
    requires
        0 < width,
        0 <= k < width * height,
    ensures
        0 <= row_of(width, k) < height,
{
    lemma_slot_of_cell(width, k);
    let i = column_of(width, k);
    let j = row_of(width, k);
    if j < 0 {
        assert(j * width <= -width) by (nonlinear_arith)
            requires
                j <= -1,
                0 < width,
        ;
    }
    if j >= height {
        lemma_mul_inequality(height, j, width);
        lemma_mul_is_commutative(width, height);
    }
}

/// Slots are ordered row by row, and within a row column by column.
pub proof fn lemma_slot_order(width: int, i1: int, j1: int, i2: int, j2: int)
    requires
        0 <= i1 < width,
        0 <= i2 < width,
    ensures
        slot(width, i1, j1) < slot(width, i2, j2) <==> j1 < j2 || (j1 == j2 && i1 < i2),
        slot(width, i1, j1) == slot(width, i2, j2) <==> j1 == j2 && i1 == i2,
{
    if j1 < j2 {
        lemma_mul_inequality(j1 + 1, j2, width);
        assert((j1 + 1) * width == j1 * width + width) by (nonlinear_arith);
    } else if j2 < j1 {
        lemma_mul_inequality(j2 + 1, j1, width);
        assert((j2 + 1) * width == j2 * width + width) by (nonlinear_arith);
    }
}

/// The extents of a pixel grid: both positive, and small enough that the
/// grid's bytes, three to a pixel, can be counted.
#[derive(Clone, Copy, Debug, PartialEq, Eq, Structural)]
pub struct Dimensions {
    width: usize,
    height: usize,
}

impl Dimensions {
    #[verifier::type_invariant]
    spec fn well_formed(self) -> bool {
        fits(self.width as int, self.height as int)
    }

    /// Number of columns.
    pub closed spec fn spec_width(&self) -> usize {
        self.width
    }

    /// Number of rows.
    pub closed spec fn spec_height(&self) -> usize {
        self.height
    }

    /// Number of slots.
    pub open spec fn spec_pixel_count(&self) -> int {
        self.width() * self.height()
    }

    /// What every value built by [`Dimensions::new`] satisfies.
    pub open spec fn valid(&self) -> bool {
        fits(self.width() as int, self.height() as int)
    }

    /// Validates a pair of extents.
    ///
    /// A zero width is reported before a zero height.
    pub fn new(width: usize, height: usize) -> (r: Result<Dimensions, DimensionError>)
        ensures
            match r {
                Ok(d) => fits(width as int, height as int) && d.width() == width && d.height()
                    == height,
                Err(DimensionError::ZeroWidth) => width == 0,
                Err(DimensionError::ZeroHeight) => width > 0 && height == 0,
                Err(DimensionError::TooLarge) => width > 0 && height > 0 && 3 * (width * height)
                    > usize::MAX,
            },
    {
        if width == 0 {
            return Err(DimensionError::ZeroWidth);
        }
        if height == 0 {
            return Err(DimensionError::ZeroHeight);
        }
        match width.checked_mul(height) {
            None => Err(DimensionError::TooLarge),
            Some(count) => match count.checked_mul(3) {
                None => Err(DimensionError::TooLarge),
                Some(_) => Ok(Dimensions { width, height }),
            },
        }
    }

    /// Number of columns.
    #[verifier::when_used_as_spec(spec_width)]
    pub fn width(&self) -> (w: usize)
        ensures
            w == self.width(),
            self.valid(),
    {
        proof {
            use_type_invariant(self);
        }
        self.width
    }

    /// Number of rows.
    #[verifier::when_used_as_spec(spec_height)]
    pub fn height(&self) -> (h: usize)
        ensures
            h == self.height(),
            self.valid(),
    {
        proof {
            use_type_invariant(self);
        }
        self.height
    }

    /// Number of slots, `width * height`.
    pub fn pixel_count(&self) -> (n: usize)
        ensures
            n == self.spec_pixel_count(),
            self.valid(),
    {
        proof {
            use_type_invariant(self);
            assert(0 < self.width * self.height) by (nonlinear_arith)
                requires
                    0 < self.width,
                    0 < self.height,
            ;
        }
        self.width * self.height
    }

    /// Whether column `i` of row `j` is a cell of the grid.
    pub fn contains(&self, i: usize, j: usize) -> (inside: bool)
        ensures
            inside <==> i < self.width() && j < self.height(),
    {
        i < self.width && j < self.height
    }

    /// The slot of column `i` in row `j`.
    pub fn index(&self, i: usize, j: usize) -> (k: usize)
        requires
            i < self.width(),
            j < self.height(),
        ensures
            k == slot(self.width() as int, i as int, j as int),
            k < self.width() * self.height(),
    {
        proof {
            use_type_invariant(self);
            lemma_slot_in_range(self.width as int, self.height as int, i as int, j as int);
        }
        i + j * self.width
    }

    /// The column and the row of slot `k`, in this order.
    pub fn coords(&self, k: usize) -> (cell: (usize, usize))
        requires
            k < self.width() * self.height(),
        ensures
            cell.0 == column_of(self.width() as int, k as int),
            cell.1 == row_of(self.width() as int, k as int),
            cell.0 < self.width(),
            cell.1 < self.height(),
    {
        proof {
            use_type_invariant(self);
            lemma_slot_of_cell(self.width as int, k as int);
            lemma_row_in_range(self.width as int, self.height as int, k as int);
        }
        (k % self.width, k / self.width)
    }
}

} // verus!
