//! The layout of a frame: each character cell shows two vertically stacked
//! samples, the upper one as the foreground of a half-height block and the
//! lower one as its background.

use vstd::prelude::*;
use crate::shading::{below, lemma_no_escape_is_black, sample_blue, sample_blues};

verus! {

/// The colours of one character cell, as blue channels.
#[derive(Clone, Copy, Debug, PartialEq, Eq, Structural)]
pub struct Cell {
    /// The upper sample.
    pub fg: u8,
    /// The lower sample.
    pub bg: u8,
}

/// Where column `x` of row `y` stands in a row-major grid `width` wide.
pub open spec fn cell_index(width: int, x: int, y: int) -> int {
    y * width + x
}

proof fn lemma_index_in_grid(width: int, height: int, x: int, y: int)
    requires
        0 <= x < width,
        0 <= y < height,
    ensures
        0 <= cell_index(width, x, y) < width * height,
        cell_index(width, x, y) < cell_index(width, 0, y + 1),
        cell_index(width, 0, y + 1) <= width * height,
{
    assert(0 <= y * width) by (nonlinear_arith)
        requires
            0 <= y,
            0 <= width,
    ;
    assert((y + 1) * width <= width * height) by (nonlinear_arith)
        requires
            y + 1 <= height,
            0 <= width,
    ;
    assert((y + 1) * width == y * width + width) by (nonlinear_arith);
    assert(cell_index(width, 0, y + 1) == (y + 1) * width);
}

/// Pairs sample row `2y` with sample row `2y + 1` into character row `y`.
pub fn stack_rows(blues: &Vec<u8>, width: usize, height: usize) -> (r: Vec<Cell>)
    requires
        blues@.len() == 2 * width * height,
    ensures
        r@.len() == width * height,
        forall|x: int, y: int|
            0 <= x < width && 0 <= y < height ==> {
                &&& (#[trigger] r@[cell_index(width as int, x, y)]).fg == blues@[cell_index(
                    width as int,
                    x,
                    2 * y,
                )]
                &&& r@[cell_index(width as int, x, y)].bg == blues@[cell_index(
                    width as int,
                    x,
                    2 * y + 1,
                )]
            },
{
    let ghost w = width as int;
    let n_samples: usize = blues.len();
    let mut cells: Vec<Cell> = Vec::new();
    let mut y: usize = 0;
    proof {
        assert(2 * width * height == (2 * height) * width) by (nonlinear_arith);
    }
    while y < height
        invariant
            blues@.len() == (2 * height) * width,
            blues@.len() == n_samples,
            w == width,
            y <= height,
            cells@.len() == cell_index(w, 0, y as int),
            forall|x2: int, y2: int|
                0 <= x2 < width && 0 <= y2 < y ==> {
                    &&& (#[trigger] cells@[cell_index(w, x2, y2)]).fg == blues@[cell_index(
                        w,
                        x2,
                        2 * y2,
                    )]
                    &&& cells@[cell_index(w, x2, y2)].bg == blues@[cell_index(w, x2, 2 * y2 + 1)]
                },
        decreases height - y,
    {
        let mut x: usize = 0;
        while x < width
            invariant
                blues@.len() == (2 * height) * width,
                blues@.len() == n_samples,
                w == width,
                y < height,
                x <= width,
                cells@.len() == cell_index(w, x as int, y as int),
                forall|x2: int, y2: int|
                    0 <= x2 < width && 0 <= y2 < y || 0 <= x2 < x && y2 == y ==> {
                        &&& (#[trigger] cells@[cell_index(w, x2, y2)]).fg == blues@[cell_index(
                            w,
                            x2,
                            2 * y2,
                        )]
                        &&& cells@[cell_index(w, x2, y2)].bg == blues@[cell_index(
                            w,
                            x2,
                            2 * y2 + 1,
                        )]
                    },
            decreases width - x,
        {
            proof {
                lemma_index_in_grid(w, 2 * height as int, x as int, 2 * y as int + 1);
                lemma_index_in_grid(w, 2 * height as int, x as int, 2 * y as int);
                assert(2 * y + 1 <= (2 * y + 1) * w) by (nonlinear_arith)
                    requires
                        w >= 1,
                        y >= 0,
                ;
                assert forall|x2: int, y2: int|
                    0 <= x2 < width && 0 <= y2 < y || 0 <= x2 < x && y2 == y implies cell_index(
                    w,
                    x2,
                    y2,
                ) < cells@.len() by {
                    lemma_index_in_grid(w, height as int, x2, y2);
                    if y2 < y {
                        assert((y2 + 1) * w <= y * w) by (nonlinear_arith)
                            requires
                                y2 + 1 <= y,
                                0 <= w,
                        ;
                    }
                };
            }
            let upper: usize = 2 * y;
            let top: usize = upper * width + x;
            let bottom: usize = (upper + 1) * width + x;
            let cell = Cell { fg: blues[top], bg: blues[bottom] };
            cells.push(cell);
            x = x + 1;
        }
        proof {
            assert((y + 1) * w == y * w + w) by (nonlinear_arith);
        }
        y = y + 1;
    }
    proof {
        assert(height * w == width * height) by (nonlinear_arith)
            requires
                w == width,
        ;
    }
    cells
}

/// `cells` is the frame `width` cells wide and `height` cells high drawn from
/// the samples `s`, which lie in `2 * height` rows of `width`.
pub open spec fn is_frame(
    s: Seq<u32>,
    max_iterations: u32,
    width: int,
    height: int,
    cells: Seq<Cell>,
) -> bool {
    &&& cells.len() == width * height
    &&& forall|x: int, y: int|
        0 <= x < width && 0 <= y < height ==> {
            &&& (#[trigger] cells[cell_index(width, x, y)]).fg == sample_blue(
                s,
                max_iterations,
                s[cell_index(width, x, 2 * y)],
            )
            &&& cells[cell_index(width, x, y)].bg == sample_blue(
                s,
                max_iterations,
                s[cell_index(width, x, 2 * y + 1)],
            )
        }
}

/// Colours a frame of `width * height` cells from the escape counts of its
/// `width * 2 * height` samples, given row by row.
pub fn render(counts: &Vec<u32>, max_iterations: u32, width: usize, height: usize) -> (r: Vec<
    Cell,
>)
    requires
        counts@.len() == 2 * width * height,
        max_iterations < usize::MAX,
    ensures
        is_frame(counts@, max_iterations, width as int, height as int, r@),
{
    let blues: Vec<u8> = sample_blues(counts, max_iterations);
    let cells: Vec<Cell> = stack_rows(&blues, width, height);
    proof {
        let w = width as int;
        let h = height as int;
        assert(2 * width * height == w * (2 * h)) by (nonlinear_arith)
            requires
                w == width,
                h == height,
        ;
        assert forall|x: int, y: int| 0 <= x < w && 0 <= y < h implies {
            &&& (#[trigger] cells@[cell_index(w, x, y)]).fg == sample_blue(
                counts@,
                max_iterations,
                counts@[cell_index(w, x, 2 * y)],
            )
            &&& cells@[cell_index(w, x, y)].bg == sample_blue(
                counts@,
                max_iterations,
                counts@[cell_index(w, x, 2 * y + 1)],
            )
        } by {
            lemma_index_in_grid(w, 2 * h, x, 2 * y);
            lemma_index_in_grid(w, 2 * h, x, 2 * y + 1);
            assert(blues@[cell_index(w, x, 2 * y)] == sample_blue(
                counts@,
                max_iterations,
                counts@[cell_index(w, x, 2 * y)],
            ));
            assert(blues@[cell_index(w, x, 2 * y + 1)] == sample_blue(
                counts@,
                max_iterations,
                counts@[cell_index(w, x, 2 * y + 1)],
            ));
        };
    }
    cells
}

proof fn lemma_grid_covers(width: int, height: int, i: int)
    requires
        0 <= width,
        0 <= i < width * height,
    ensures
        0 <= i % width < width,
        0 <= i / width < height,
        i == cell_index(width, i % width, i / width),
{
    assert(width > 0) by (nonlinear_arith)
        requires
            0 <= width,
            0 <= i < width * height,
    ;
    assert(i == (i / width) * width + i % width && 0 <= i % width < width) by (nonlinear_arith)
        requires
            width > 0,
    ;
    assert(0 <= i / width < height) by (nonlinear_arith)
        requires
            width > 0,
            0 <= i < width * height,
    ;
}

/// The samples, the budget and the grid's size fix the frame: two frames
/// drawn from the same of them are equal, cell for cell.
pub proof fn lemma_frame_determined(
    s: Seq<u32>,
    max_iterations: u32,
    width: int,
    height: int,
    a: Seq<Cell>,
    b: Seq<Cell>,
)
    requires
        0 <= width,
        is_frame(s, max_iterations, width, height, a),
        is_frame(s, max_iterations, width, height, b),
    ensures
        a == b,
{
    assert forall|i: int| 0 <= i < a.len() implies a[i] == b[i] by {
        lemma_grid_covers(width, height, i);
        let x = i % width;
        let y = i / width;
        assert(a[cell_index(width, x, y)].fg == b[cell_index(width, x, y)].fg);
        assert(a[cell_index(width, x, y)].bg == b[cell_index(width, x, y)].bg);
    };
    assert(a =~= b);
}

/// Where no sample escaped, every cell of the frame is black above and below.
pub proof fn lemma_dark_frame(
    s: Seq<u32>,
    max_iterations: u32,
    width: int,
    height: int,
    cells: Seq<Cell>,
)
    requires
        0 <= width,
        is_frame(s, max_iterations, width, height, cells),
        below(s, max_iterations as int) == 0,
    ensures
        forall|i: int| 0 <= i < cells.len() ==> #[trigger] cells[i] == (Cell { fg: 0, bg: 0 }),
{
    lemma_no_escape_is_black(s, max_iterations);
    assert forall|i: int| 0 <= i < cells.len() implies #[trigger] cells[i] == (Cell {
        fg: 0,
        bg: 0,
    }) by {
        lemma_grid_covers(width, height, i);
        let x = i % width;
        let y = i / width;
        assert(cells[cell_index(width, x, y)].fg == 0);
        assert(cells[cell_index(width, x, y)].bg == 0);
    };
}

} // verus!
