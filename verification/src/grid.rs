//! The grid of an image: the cells where the segments of its rows and of its
//! columns meet, listed row by row.

use crate::axis::{lemma_pixel_in_one_segment, lemma_segments_tile_extent};
use crate::axis::{plan_axis, planned_segments, segment_holds, Segment};
use crate::weights::{valid_weights, GridSpec};
use vstd::prelude::*;

verus! {

/// One cell of the grid, in pixel coordinates of the source image.
#[derive(Clone, Copy, Debug, PartialEq, Eq, Structural)]
pub struct TileRect {
    pub x: u32,
    pub y: u32,
    pub width: u32,
    pub height: u32,
}

/// The cell where a row segment and a column segment meet.
pub open spec fn rect_of(row: Segment, col: Segment) -> TileRect {
    TileRect { x: col.offset, y: row.offset, width: col.length, height: row.length }
}

/// All the cells of a grid, row by row: the cell of row `r` and column `c`
/// stands at index `r * cols.len() + c`.
pub open spec fn grid_rects(rows: Seq<Segment>, cols: Seq<Segment>) -> Seq<TileRect> {
    Seq::new(
        rows.len() * cols.len(),
        |t: int| rect_of(rows[t / (cols.len() as int)], cols[t % (cols.len() as int)]),
    )
}

/// The cells into which the two specs divide an image of the given size.
pub open spec fn planned_rects(
    width: u32,
    height: u32,
    row_weights: Seq<u32>,
    col_weights: Seq<u32>,
) -> Seq<TileRect> {
    grid_rects(planned_segments(height, row_weights), planned_segments(width, col_weights))
}

/// In a grid of `rows` by `cols` cells, the cell of row `r` and column `c`
/// has an index of its own, from which row and column can be read back.
pub proof fn lemma_row_major_index(r: int, c: int, rows: int, cols: int)
    requires
        0 <= r < rows,
        0 <= c < cols,
    ensures
        0 <= r * cols + c < rows * cols,
        (r * cols + c) / cols == r,
        (r * cols + c) % cols == c,
{
    vstd::arithmetic::div_mod::lemma_fundamental_div_mod_converse(r * cols + c, cols, r, c);
    assert(r * cols + c < rows * cols) by (nonlinear_arith)
        requires
            0 <= r < rows,
            0 <= c < cols,
    ;
    assert(0 <= r * cols) by (nonlinear_arith)
        requires
            0 <= r,
            0 <= cols,
    ;
}

/// Every index of a grid of `rows` by `cols` cells is that of one row and one
/// column.
pub proof fn lemma_row_major_position(t: int, rows: int, cols: int)
    requires
        0 <= t < rows * cols,
        0 <= rows,
        0 <= cols,
    ensures
        0 < cols,
        0 <= t / cols < rows,
        0 <= t % cols < cols,
        t == (t / cols) * cols + t % cols,
{
    assert(0 < cols) by (nonlinear_arith)
        requires
            0 <= t < rows * cols,
            0 <= rows,
            0 <= cols,
    ;
    vstd::arithmetic::div_mod::lemma_fundamental_div_mod(t, cols);
    vstd::arithmetic::div_mod::lemma_mod_bound(t, cols);
    vstd::arithmetic::mul::lemma_mul_is_commutative(cols, t / cols);
    assert(0 <= t / cols < rows) by (nonlinear_arith)
        requires
            0 <= t < rows * cols,
            0 < cols,
            t == (t / cols) * cols + t % cols,
            0 <= t % cols < cols,
    ;
}

/// Combines row segments and column segments into the cells of the grid,
/// row by row and, within a row, column by column.
pub fn cross_product(rows: &Vec<Segment>, cols: &Vec<Segment>) -> (rects: Vec<TileRect>)
    ensures
        rects@ == grid_rects(rows@, cols@),
{
    let ghost grid = grid_rects(rows@, cols@);
    let ghost k = rows.len() as int;
    let ghost m = cols.len() as int;
    let mut rects: Vec<TileRect> = Vec::new();
    let mut r: usize = 0;
    while r < rows.len()
        invariant
            r <= rows.len(),
            k == rows.len(),
            m == cols.len(),
            grid == grid_rects(rows@, cols@),
            0 <= r * m <= k * m,
            rects@ == grid.take(r * m),
        decreases rows.len() - r,
    {
        let mut c: usize = 0;
        while c < cols.len()
            invariant
                r < rows.len(),
                c <= cols.len(),
                k == rows.len(),
                m == cols.len(),
                grid == grid_rects(rows@, cols@),
                0 <= r * m + c <= k * m,
                rects@ == grid.take(r * m + c),
            decreases cols.len() - c,
        {
            proof {
                lemma_row_major_index(r as int, c as int, k, m);
            }
            rects.push(
                TileRect {
                    x: cols[c].offset,
                    y: rows[r].offset,
                    width: cols[c].length,
                    height: rows[r].length,
                },
            );
            proof {
                let t = r * m + c;
                assert(grid.take(t + 1) =~= grid.take(t).push(grid[t]));
            }
            c += 1;
        }
        proof {
            assert((r + 1) * m == r * m + m) by (nonlinear_arith);
            assert((r + 1) * m <= k * m) by (nonlinear_arith)
                requires
                    r + 1 <= k,
                    0 <= m,
            ;
        }
        r += 1;
    }
    proof {
        assert(grid.take(k * m) =~= grid);
    }
    rects
}

/// Plans the grid for an image of `width` by `height` pixels: the rows are
/// planned along the height, the columns along the width, and the cells are
/// listed row by row.
pub fn plan_grid(width: u32, height: u32, rows: &GridSpec, cols: &GridSpec) -> (rects: Vec<
    TileRect,
>)
    ensures
        valid_weights(rows@),
        valid_weights(cols@),
        rects@ == planned_rects(width, height, rows@, cols@),
{
    let row_segments = plan_axis(height, rows);
    let col_segments = plan_axis(width, cols);
    cross_product(&row_segments, &col_segments)
}

/// The index at which a row-by-row listing of a grid with `cols` columns
/// holds the cell of row `r` and column `c`.
pub open spec fn cell_index(r: int, c: int, cols: int) -> int {
    r * cols + c
}

/// A grid of `k` rows and `m` columns has exactly `k * m` cells, listed row
/// by row: the cell at index `r * m + c` is the one where row `r` meets
/// column `c`.
pub proof fn lemma_grid_is_row_major(rows: Seq<Segment>, cols: Seq<Segment>)
    ensures
        grid_rects(rows, cols).len() == rows.len() * cols.len(),
        forall|r: int, c: int|
            0 <= r < rows.len() && 0 <= c < cols.len() ==> {
                let t = #[trigger] cell_index(r, c, cols.len() as int);
                &&& 0 <= t < grid_rects(rows, cols).len()
                &&& grid_rects(rows, cols)[t] == rect_of(rows[r], cols[c])
            },
{
    assert forall|r: int, c: int| 0 <= r < rows.len() && 0 <= c < cols.len() implies {
        let t = #[trigger] cell_index(r, c, cols.len() as int);
        &&& 0 <= t < grid_rects(rows, cols).len()
        &&& grid_rects(rows, cols)[t] == rect_of(rows[r], cols[c])
    } by {
        lemma_row_major_index(r, c, rows.len() as int, cols.len() as int);
    }
}

/// Every cell of a planned grid lies inside the image.
pub proof fn lemma_rects_inside_image(
    width: u32,
    height: u32,
    row_weights: Seq<u32>,
    col_weights: Seq<u32>,
)
    requires
        valid_weights(row_weights),
        valid_weights(col_weights),
    ensures
        forall|t: int|
            0 <= t < planned_rects(width, height, row_weights, col_weights).len() ==> {
                let rect = #[trigger] planned_rects(width, height, row_weights, col_weights)[t];
                rect.x + rect.width <= width && rect.y + rect.height <= height
            },
{
    let rows = planned_segments(height, row_weights);
    let cols = planned_segments(width, col_weights);
    let rects = planned_rects(width, height, row_weights, col_weights);
    assert forall|t: int| 0 <= t < rects.len() implies {
        let rect = #[trigger] rects[t];
        rect.x + rect.width <= width && rect.y + rect.height <= height
    } by {
        lemma_row_major_position(t, rows.len() as int, cols.len() as int);
        lemma_segments_tile_extent(height, row_weights);
        lemma_segments_tile_extent(width, col_weights);
        assert(rects[t] == rect_of(rows[t / (cols.len() as int)], cols[t % (cols.len() as int)]));
    }
}

/// Whether the pixel in column `x` and row `y` lies in a cell.
pub open spec fn rect_holds(rect: TileRect, x: int, y: int) -> bool {
    &&& rect.x <= x < rect.x + rect.width
    &&& rect.y <= y < rect.y + rect.height
}

/// Every pixel of an image lies in exactly one cell of its planned grid: the
/// cells leave no gap and do not overlap.
pub proof fn lemma_pixel_in_one_rect(
    width: u32,
    height: u32,
    row_weights: Seq<u32>,
    col_weights: Seq<u32>,
    x: int,
    y: int,
) -> (t: int)
    requires
        valid_weights(row_weights),
        valid_weights(col_weights),
        0 <= x < width,
        0 <= y < height,
    ensures
        0 <= t < planned_rects(width, height, row_weights, col_weights).len(),
        rect_holds(planned_rects(width, height, row_weights, col_weights)[t], x, y),
        forall|u: int|
            0 <= u < planned_rects(width, height, row_weights, col_weights).len() && rect_holds(
                #[trigger] planned_rects(width, height, row_weights, col_weights)[u],
                x,
                y,
            ) ==> u == t,
{
    let rows = planned_segments(height, row_weights);
    let cols = planned_segments(width, col_weights);
    let rects = planned_rects(width, height, row_weights, col_weights);
    let m = cols.len() as int;
    let r = lemma_pixel_in_one_segment(height, row_weights, y);
    let c = lemma_pixel_in_one_segment(width, col_weights, x);
    lemma_row_major_index(r, c, rows.len() as int, m);
    let t = r * m + c;
    assert forall|u: int| 0 <= u < rects.len() && rect_holds(#[trigger] rects[u], x, y) implies u
        == t by {
        lemma_row_major_position(u, rows.len() as int, m);
        assert(segment_holds(rows[u / m], y));
        assert(segment_holds(cols[u % m], x));
    }
    t
}

} // verus!
