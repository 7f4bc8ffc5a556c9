use image::{DynamicImage, GenericImageView, Rgba, RgbaImage};
use splix::cropper::{crop, split_image};
use splix::grid::{plan_grid, TileRect};
use splix::weights::GridSpec;

fn spec(weights: &[u32]) -> GridSpec {
    GridSpec::new(weights.to_vec()).unwrap()
}

/// An image in which every pixel tells its own coordinates.
fn marked_image(width: u32, height: u32) -> DynamicImage {
    DynamicImage::ImageRgba8(RgbaImage::from_fn(width, height, |x, y| {
        Rgba([x as u8, y as u8, (x + y) as u8, 255])
    }))
}

#[test]
fn split_16x16_into_3_rows_and_5_cols() {
    let tiles = split_image(marked_image(16, 16), &spec(&[3]), &spec(&[5]));
    assert_eq!(tiles.len(), 15);
    let heights = [5u32, 5, 6];
    let widths = [3u32, 3, 3, 3, 4];
    for (t, tile) in tiles.iter().enumerate() {
        assert_eq!(tile.row, t / 5);
        assert_eq!(tile.col, t % 5);
        assert_eq!(tile.image.dimensions(), (widths[tile.col], heights[tile.row]));
        assert_eq!(tile.rect.width, widths[tile.col]);
        assert_eq!(tile.rect.height, heights[tile.row]);
    }
}

#[test]
fn split_16x16_whole() {
    let tiles = split_image(marked_image(16, 16), &spec(&[1]), &spec(&[1]));
    assert_eq!(tiles.len(), 1);
    assert_eq!(tiles[0].rect, TileRect { x: 0, y: 0, width: 16, height: 16 });
    assert_eq!(tiles[0].image.dimensions(), (16, 16));
    assert_eq!((tiles[0].row, tiles[0].col), (0, 0));
}

#[test]
fn split_16x16_clamped_to_single_pixels() {
    let tiles = split_image(marked_image(16, 16), &spec(&[17]), &spec(&[17]));
    assert_eq!(tiles.len(), 256);
    for tile in &tiles {
        assert_eq!(tile.image.dimensions(), (1, 1));
        assert_eq!(
            tile.image.get_pixel(0, 0),
            Rgba([tile.col as u8, tile.row as u8, (tile.col + tile.row) as u8, 255])
        );
    }
}

#[test]
fn tiles_follow_the_plan() {
    let rows = spec(&[2, 3, 1]);
    let cols = spec(&[4]);
    let tiles = split_image(marked_image(23, 13), &rows, &cols);
    let rects = plan_grid(23, 13, &rows, &cols);
    assert_eq!(tiles.len(), rects.len());
    for (tile, rect) in tiles.iter().zip(rects.iter()) {
        assert_eq!(tile.rect, *rect);
    }
}

#[test]
fn tiles_hold_the_pixels_of_their_cell() {
    let tiles = split_image(marked_image(23, 13), &spec(&[2, 3, 1]), &spec(&[4]));
    for tile in &tiles {
        assert_eq!(tile.image.dimensions(), (tile.rect.width, tile.rect.height));
        for j in 0..tile.rect.height {
            for i in 0..tile.rect.width {
                let x = tile.rect.x + i;
                let y = tile.rect.y + j;
                assert_eq!(
                    tile.image.get_pixel(i, j),
                    Rgba([x as u8, y as u8, (x + y) as u8, 255])
                );
            }
        }
    }
}

#[test]
fn tiles_keep_the_color_type_of_the_source() {
    let source = DynamicImage::new_luma8(9, 4);
    let tiles = split_image(source, &spec(&[2]), &spec(&[3]));
    assert_eq!(tiles.len(), 6);
    for tile in &tiles {
        assert_eq!(tile.image.color(), image::ColorType::L8);
        assert_eq!(tile.image.dimensions(), (3, 2));
    }
}

#[test]
fn too_heavy_weights_give_empty_tiles() {
    let tiles = split_image(marked_image(5, 2), &spec(&[1]), &spec(&[3, 4, 2]));
    assert_eq!(tiles.len(), 3);
    assert_eq!(tiles[0].image.dimensions(), (3, 2));
    assert_eq!(tiles[1].image.dimensions(), (2, 2));
    assert_eq!(tiles[2].image.dimensions(), (0, 2));
    assert_eq!(tiles[2].rect, TileRect { x: 5, y: 0, width: 0, height: 2 });
}

#[test]
fn tiles_cover_every_pixel_once() {
    let (width, height) = (19u32, 11u32);
    let tiles = split_image(marked_image(width, height), &spec(&[3, 1, 2]), &spec(&[4]));
    let mut seen = vec![0u32; (width * height) as usize];
    for tile in &tiles {
        for j in 0..tile.rect.height {
            for i in 0..tile.rect.width {
                seen[((tile.rect.y + j) * width + tile.rect.x + i) as usize] += 1;
            }
        }
    }
    assert!(seen.iter().all(|&n| n == 1));
}

#[test]
fn crop_cuts_the_cell_out() {
    let mut source = marked_image(10, 8);
    let cut = crop(&mut source, TileRect { x: 4, y: 2, width: 5, height: 3 });
    assert_eq!(cut.dimensions(), (5, 3));
    for j in 0..3 {
        for i in 0..5 {
            assert_eq!(cut.get_pixel(i, j), source.get_pixel(4 + i, 2 + j));
        }
    }
}

#[test]
fn crop_leaves_the_source_as_it_was() {
    let mut source = marked_image(10, 8);
    let before = source.clone();
    let _ = crop(&mut source, TileRect { x: 0, y: 0, width: 10, height: 8 });
    let _ = crop(&mut source, TileRect { x: 9, y: 7, width: 1, height: 1 });
    assert_eq!(source, before);
}
