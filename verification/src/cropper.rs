//! Cutting the tiles of a planned grid out of a decoded image.
//!
//! The pixel buffer is `image::DynamicImage`. The verifier does not look into
//! it: what this module knows of an image is its size and its pixels, as the
//! `image` crate reports them, and what it knows of a crop is stated, not
//! proved, on `dimensions_of` and `crop_image` below.

use crate::axis::{planned_segments, segment_count};
use crate::grid::{lemma_pixel_in_one_rect, lemma_rects_inside_image, lemma_row_major_position};
use crate::grid::{plan_grid, planned_rects, rect_holds, TileRect};
use crate::weights::{valid_weights, GridSpec};
use image::DynamicImage;
use image::GenericImageView;
use vstd::math::min;
use vstd::prelude::*;

verus! {

/// `image::DynamicImage`, a decoded image of any pixel format. The verifier
/// takes it as it comes and sees nothing inside it.
#[verifier::external_type_specification]
#[verifier::external_body]
pub struct ExDynamicImage(image::DynamicImage);

/// Width and height of an image in pixels: what `GenericImageView::dimensions`
/// returns for it.
pub uninterp spec fn image_dimensions(img: DynamicImage) -> (u32, u32);

/// The pixels of an image by column and row, each as red, green, blue and
/// alpha: what `GenericImageView::get_pixel` returns for the coordinates
/// inside the image.
pub uninterp spec fn image_pixels(img: DynamicImage) -> Map<(int, int), (u8, u8, u8, u8)>;

/// `cut` is the part of `source` that `rect` delimits: it has the size of
/// `rect`, and its pixel at `(i, j)` is the pixel of `source` at
/// `(rect.x + i, rect.y + j)`.
pub open spec fn is_cutout(cut: DynamicImage, source: DynamicImage, rect: TileRect) -> bool {
    &&& image_dimensions(cut) == (rect.width, rect.height)
    &&& forall|i: int, j: int|
        0 <= i < rect.width && 0 <= j < rect.height ==> #[trigger] image_pixels(cut)[(i, j)]
            == image_pixels(source)[(rect.x + i, rect.y + j)]
}

/// The part of `rect` that lies inside an image of the given size.
pub open spec fn clamped_rect(rect: TileRect, size: (u32, u32)) -> TileRect {
    let x = min(rect.x as int, size.0 as int);
    let y = min(rect.y as int, size.1 as int);
    TileRect {
        x: x as u32,
        y: y as u32,
        width: min(rect.width as int, size.0 - x) as u32,
        height: min(rect.height as int, size.1 - y) as u32,
    }
}

/// Calls `GenericImageView::dimensions` on a `DynamicImage`. Trusted: the
/// result is the image's width and height.
#[verifier::external_body]
fn dimensions_of(img: &DynamicImage) -> (size: (u32, u32))
    ensures
        size == image_dimensions(*img),
{
    img.dimensions()
}

/// Calls `DynamicImage::crop`. Trusted: the call leaves the image as it was,
/// and returns a new image that is the cut-out delimited by the rectangle,
/// after the rectangle has been clamped to the image.
#[verifier::external_body]
fn crop_image(img: &mut DynamicImage, rect: TileRect) -> (cut: DynamicImage)
    ensures
        *final(img) == *old(img),
        image_dimensions(cut) == ({
            let inside = clamped_rect(rect, image_dimensions(*old(img)));
            (inside.width, inside.height)
        }),
        forall|i: int, j: int|
            ({
                let inside = clamped_rect(rect, image_dimensions(*old(img)));
                0 <= i < inside.width && 0 <= j < inside.height ==> #[trigger] image_pixels(
                    cut,
                )[(i, j)] == image_pixels(*old(img))[(inside.x + i, inside.y + j)]
            }),
{
    img.crop(rect.x, rect.y, rect.width, rect.height)
}

/// Cuts the cell `rect` out of `source`. The source is left as it was; the
/// cut-out is an image of its own.
pub fn crop(source: &mut DynamicImage, rect: TileRect) -> (cut: DynamicImage)
    requires
        rect.x + rect.width <= image_dimensions(*old(source)).0,
        rect.y + rect.height <= image_dimensions(*old(source)).1,
    ensures
        *final(source) == *old(source),
        is_cutout(cut, *old(source), rect),
{
    assert(clamped_rect(rect, image_dimensions(*source)) == rect);
    crop_image(source, rect)
}

/// One cell of the grid together with the pixels cut out for it.
pub struct Tile {
    /// Where the tile lies in the source image.
    pub rect: TileRect,
    /// The row of the grid that the tile belongs to, counted from 0.
    pub row: usize,
    /// The column of the grid that the tile belongs to, counted from 0.
    pub col: usize,
    /// The tile's own pixels.
    pub image: DynamicImage,
}

/// `tiles` are the tiles of `img` for the grid that the two weight lists ask
/// for: one tile per cell of the planned grid, row by row, each with its
/// cell, its row and column in the grid, and the cut-out of its cell.
pub open spec fn is_split(
    tiles: Seq<Tile>,
    img: DynamicImage,
    row_weights: Seq<u32>,
    col_weights: Seq<u32>,
) -> bool {
    let (width, height) = image_dimensions(img);
    let rects = planned_rects(width, height, row_weights, col_weights);
    let columns = planned_segments(width, col_weights).len() as int;
    &&& tiles.len() == rects.len()
    &&& forall|t: int|
        0 <= t < tiles.len() ==> {
            let tile = #[trigger] tiles[t];
            &&& tile.rect == rects[t]
            &&& tile.row == t / columns
            &&& tile.col == t % columns
            &&& is_cutout(tile.image, img, rects[t])
        }
}

/// Splits an image into the tiles of the grid that the two specs ask for.
///
/// The tiles come row by row. Each one knows its cell, its row and column in
/// the grid, and holds a copy of the pixels of its cell.
pub fn split_image(img: DynamicImage, rows: &GridSpec, cols: &GridSpec) -> (tiles: Vec<Tile>)
    ensures
        valid_weights(rows@),
        valid_weights(cols@),
        is_split(tiles@, img, rows@, cols@),
{
    let mut source = img;
    let (width, height) = dimensions_of(&source);
    let rects = plan_grid(width, height, rows, cols);
    let columns = segment_count(width, cols);
    let ghost planned = planned_rects(width, height, rows@, cols@);
    let ghost k = planned_segments(height, rows@).len() as int;
    let mut tiles: Vec<Tile> = Vec::new();
    let mut t: usize = 0;
    while t < rects.len()
        invariant
            t <= rects.len(),
            source == img,
            (width, height) == image_dimensions(img),
            rects@ == planned,
            planned == planned_rects(width, height, rows@, cols@),
            planned.len() == k * columns,
            0 <= k,
            columns == planned_segments(width, cols@).len(),
            valid_weights(rows@),
            valid_weights(cols@),
            tiles@.len() == t,
            forall|u: int|
                0 <= u < t ==> {
                    let tile = #[trigger] tiles@[u];
                    &&& tile.rect == planned[u]
                    &&& tile.row == u / (columns as int)
                    &&& tile.col == u % (columns as int)
                    &&& is_cutout(tile.image, img, planned[u])
                },
        decreases rects.len() - t,
    {
        let rect = rects[t];
        proof {
            lemma_row_major_position(t as int, k, columns as int);
            lemma_rects_inside_image(width, height, rows@, cols@);
            assert(planned[t as int].x + planned[t as int].width <= width);
        }
        let image = crop(&mut source, rect);
        tiles.push(Tile { rect, row: t / columns, col: t % columns, image });
        t += 1;
    }
    tiles
}

/// The tiles of an image hold every pixel of it exactly once: each pixel of
/// the source lies in the cell of one tile and of no other, and that tile
/// holds the pixel at its place within the cell.
pub proof fn lemma_tiles_hold_every_pixel(
    tiles: Seq<Tile>,
    img: DynamicImage,
    row_weights: Seq<u32>,
    col_weights: Seq<u32>,
    x: int,
    y: int,
) -> (t: int)
    requires
        valid_weights(row_weights),
        valid_weights(col_weights),
        is_split(tiles, img, row_weights, col_weights),
        0 <= x < image_dimensions(img).0,
        0 <= y < image_dimensions(img).1,
    ensures
        0 <= t < tiles.len(),
        rect_holds(tiles[t].rect, x, y),
        image_pixels(tiles[t].image)[(x - tiles[t].rect.x, y - tiles[t].rect.y)] == image_pixels(
            img,
        )[(x, y)],
        forall|u: int| 0 <= u < tiles.len() && rect_holds((#[trigger] tiles[u]).rect, x, y) ==> u == t,
{
    let (width, height) = image_dimensions(img);
    let rects = planned_rects(width, height, row_weights, col_weights);
    let t = lemma_pixel_in_one_rect(width, height, row_weights, col_weights, x, y);
    let tile = tiles[t];
    assert(is_cutout(tile.image, img, rects[t]));
    assert(image_pixels(tile.image)[(x - tile.rect.x, y - tile.rect.y)] == image_pixels(img)[(
        tile.rect.x + (x - tile.rect.x),
        tile.rect.y + (y - tile.rect.y),
    )]);
    assert forall|u: int| 0 <= u < tiles.len() && rect_holds((#[trigger] tiles[u]).rect, x, y) implies u
        == t by {
        assert(tiles[u].rect == rects[u]);
    }
    t
}

} // verus!
