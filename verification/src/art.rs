//! The grid of symbols that stands for a downsampled frame.

use vstd::prelude::*;
use crate::luma::{IntensityBuffer, IntensityGrid};
use crate::pixels::lemma_offset_bounds;
use crate::ramp::{ramp_index, SymbolRamp};

verus! {

/// The mathematical model of an art grid: `rows * cols` symbols, row by row.
pub struct ArtShape {
    pub rows: nat,
    pub cols: nat,
    pub cells: Seq<char>,
}

impl ArtShape {
    pub open spec fn wf(self) -> bool {
        self.cells.len() == self.rows * self.cols
    }

    pub open spec fn in_bounds(self, row: int, col: int) -> bool {
        0 <= row < self.rows && 0 <= col < self.cols
    }

    pub open spec fn symbol(self, row: int, col: int) -> char {
        self.cells[row * self.cols + col]
    }
}

/// The art grid of an intensity grid under a ramp: one row per pixel row,
/// one column per pixel column, each cell the ramp's symbol for the intensity
/// at that place.
pub open spec fn art_of(intensities: IntensityGrid, ramp: Seq<char>) -> ArtShape {
    ArtShape {
        rows: intensities.height,
        cols: intensities.width,
        cells: Seq::new(
            intensities.width * intensities.height,
            |k: int| ramp[ramp_index(intensities.values[k], ramp.len())],
        ),
    }
}

/// The cell at `(row, col)` holds the symbol for the intensity at column
/// `col`, row `row`.
pub proof fn lemma_art_pointwise(intensities: IntensityGrid, ramp: Seq<char>, row: int, col: int)
    requires
        intensities.in_bounds(col, row),
    ensures
        art_of(intensities, ramp).in_bounds(row, col),
        art_of(intensities, ramp).symbol(row, col) == ramp[ramp_index(
            intensities.at(col, row),
            ramp.len(),
        )],
{
    lemma_offset_bounds(intensities.width, intensities.height, col, row);
}

/// A matrix of symbols.
pub struct ArtGrid {
    rows: usize,
    cols: usize,
    cells: Vec<char>,
}

impl View for ArtGrid {
    type V = ArtShape;

    closed spec fn view(&self) -> ArtShape {
        ArtShape { rows: self.rows as nat, cols: self.cols as nat, cells: self.cells@ }
    }
}

impl ArtGrid {
    pub open spec fn wf(&self) -> bool {
        self@.wf()
    }

    /// A grid from its symbols, row by row; `None` unless there are exactly
    /// `rows * cols` of them.
    pub fn new(rows: usize, cols: usize, cells: Vec<char>) -> (out: Option<ArtGrid>)
        ensures
            out is Some <==> cells@.len() == rows * cols,
            out matches Some(grid) ==> grid.wf() && grid@ == (ArtShape {
                rows: rows as nat,
                cols: cols as nat,
                cells: cells@,
            }),
    {
        let given = cells.len();
        match rows.checked_mul(cols) {
            Some(area) => {
                if given == area {
                    Some(ArtGrid { rows, cols, cells })
                } else {
                    None
                }
            },
            None => None,
        }
    }

    /// Maps every intensity to its symbol, keeping rows and columns in place.
    pub fn from_intensity(intensities: &IntensityBuffer, ramp: &SymbolRamp) -> (grid: ArtGrid)
        requires
            intensities.wf(),
            ramp.wf(),
        ensures
            grid.wf(),
            grid@ == art_of(intensities@, ramp@),
            grid@.rows == intensities@.height,
            grid@.cols == intensities@.width,
    {
        let values = intensities.as_bytes();
        let count = values.len();
        let mut cells: Vec<char> = Vec::with_capacity(count);
        let mut k: usize = 0;
        while k < count
            invariant
                k <= count,
                count == values@.len(),
                values@ == intensities@.values,
                count == intensities@.width * intensities@.height,
                ramp.wf(),
                cells@.len() == k,
                forall|j: int| 0 <= j < k ==> cells@[j] == art_of(intensities@, ramp@).cells[j],
            decreases count - k,
        {
            cells.push(ramp.symbol_for(values[k]));
            k += 1;
        }
        let grid = ArtGrid { rows: intensities.height(), cols: intensities.width(), cells };
        assert(grid@.cells =~= art_of(intensities@, ramp@).cells);
        assert(intensities@.width * intensities@.height == intensities@.height
            * intensities@.width) by (nonlinear_arith);
        grid
    }

    pub fn rows(&self) -> (n: usize)
        ensures
            n == self@.rows,
    {
        self.rows
    }

    pub fn cols(&self) -> (n: usize)
        ensures
            n == self@.cols,
    {
        self.cols
    }

    /// The symbol at `(row, col)`.
    pub fn symbol_at(&self, row: usize, col: usize) -> (c: char)
        requires
            self.wf(),
            self@.in_bounds(row as int, col as int),
        ensures
            c == self@.symbol(row as int, col as int),
    {
        let len = self.cells.len();
        proof {
            lemma_offset_bounds(self.cols as nat, self.rows as nat, col as int, row as int);
            assert(self.cols * self.rows == self.rows * self.cols) by (nonlinear_arith);
        }
        self.cells[row * self.cols + col]
    }

    /// The symbol at `(row, col)`, or `None` outside the grid.
    pub fn get(&self, row: usize, col: usize) -> (c: Option<char>)
        requires
            self.wf(),
        ensures
            c == if self@.in_bounds(row as int, col as int) {
                Some(self@.symbol(row as int, col as int))
            } else {
                None
            },
    {
        if row < self.rows && col < self.cols {
            Some(self.symbol_at(row, col))
        } else {
            None
        }
    }

    /// The symbols of one row, left to right; empty past the last row.
    pub fn row(&self, row: usize) -> (line: Vec<char>)
        requires
            self.wf(),
        ensures
            line@ == if row < self@.rows {
                self@.cells.subrange(row * self@.cols, row * self@.cols + self@.cols)
            } else {
                Seq::<char>::empty()
            },
    {
        let mut line: Vec<char> = Vec::new();
        if row < self.rows {
            let len = self.cells.len();
            proof {
                let (r, n, c) = (row as int, self.rows as int, self.cols as int);
                assert(0 <= r * c && r * c + c <= n * c) by (nonlinear_arith)
                    requires
                        0 <= r < n,
                        0 <= c,
                ;
                assert(line@ =~= self.cells@.subrange(r * c, r * c));
            }
            let mut col: usize = 0;
            while col < self.cols
                invariant
                    col <= self.cols,
                    row < self.rows,
                    self.wf(),
                    row * self.cols + self.cols <= self.cells@.len(),
                    self.cells@.len() <= usize::MAX,
                    line@ == self.cells@.subrange(row * self.cols, row * self.cols + col),
                decreases self.cols - col,
            {
                line.push(self.cells[row * self.cols + col]);
                assert(line@ =~= self.cells@.subrange(row * self.cols, row * self.cols + col + 1));
                col += 1;
            }
        }
        line
    }
}

/// The art grid of an intensity buffer under the standard ramp.
pub fn convert_to_ascii(intensities: &IntensityBuffer) -> (grid: ArtGrid)
    requires
        intensities.wf(),
    ensures
        grid.wf(),
        grid@ == art_of(intensities@, SymbolRamp::standard_symbols()),
        grid@.rows == intensities@.height,
        grid@.cols == intensities@.width,
{
    let ramp = SymbolRamp::standard();
    ArtGrid::from_intensity(intensities, &ramp)
}

} // verus!
