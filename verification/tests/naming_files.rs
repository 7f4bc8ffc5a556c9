use splix::naming::{resolve, tile_file_name};
use std::collections::HashSet;

#[test]
fn name_of_first_tile() {
    assert_eq!(tile_file_name("photo", 0, 0, "png"), "photo-r0c0.png");
}

#[test]
fn name_with_long_indices() {
    assert_eq!(tile_file_name("photo", 12, 345, "jpg"), "photo-r12c345.jpg");
    assert_eq!(tile_file_name("a.b", 10, 100, "tiff"), "a.b-r10c100.tiff");
}

#[test]
fn name_with_empty_stem_and_extension() {
    assert_eq!(tile_file_name("", 7, 9, ""), "-r7c9.");
}

#[test]
fn indices_are_written_in_decimal() {
    assert_eq!(tile_file_name("t", 0, 9, "x"), "t-r0c9.x");
    assert_eq!(tile_file_name("t", 10, 99, "x"), "t-r10c99.x");
    assert_eq!(tile_file_name("t", 100, 1234567890, "x"), "t-r100c1234567890.x");
    assert_eq!(
        tile_file_name("t", usize::MAX, usize::MAX, "x"),
        format!("t-r{}c{}.x", usize::MAX, usize::MAX)
    );
}

#[test]
fn indices_agree_with_std_formatting() {
    for n in 0..2000usize {
        assert_eq!(tile_file_name("s", n, 2 * n, "png"), format!("s-r{}c{}.png", n, 2 * n));
    }
}

#[test]
fn resolve_keeps_directory_and_names_the_tile() {
    let path = resolve("splixed-images", "cat", 2, 3, "png");
    assert_eq!(path.directory, "splixed-images");
    assert_eq!(path.file_name, "cat-r2c3.png");
}

#[test]
fn resolve_is_repeatable() {
    let first = resolve("out", "cat", 1, 1, "bmp");
    let second = resolve("out", "cat", 1, 1, "bmp");
    assert_eq!(first.directory, second.directory);
    assert_eq!(first.file_name, second.file_name);
}

#[test]
fn tiles_of_a_grid_get_distinct_names() {
    for (rows, cols) in [(3usize, 5usize), (16, 16), (1, 1), (12, 111)] {
        let mut names = HashSet::new();
        for t in 0..rows * cols {
            names.insert(resolve("out", "img", t / cols, t % cols, "png").file_name);
        }
        assert_eq!(names.len(), rows * cols);
    }
}

#[test]
fn row_and_column_digits_do_not_run_together() {
    assert_ne!(tile_file_name("s", 1, 11, "png"), tile_file_name("s", 11, 1, "png"));
    assert_ne!(tile_file_name("s", 1, 23, "png"), tile_file_name("s", 12, 3, "png"));
}
