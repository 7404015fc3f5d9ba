use image_cropper::geometry::BoundingBox;
use image_cropper::pixel::{Criterion, Pixel};
use image_cropper::raster::Image;
use image_cropper::scanner::scan;

const BLACK: Pixel = Pixel { r: 0, g: 0, b: 0, a: 255 };
const WHITE: Pixel = Pixel { r: 255, g: 255, b: 255, a: 255 };
const CLEAR: Pixel = Pixel { r: 255, g: 255, b: 255, a: 0 };

fn with_pixels(width: u32, height: u32, fill: Pixel, marks: &[(u32, u32)], mark: Pixel) -> Image {
    let mut img = Image::new(width, height, fill);
    for &(x, y) in marks {
        assert!(img.set_pixel(x, y, mark));
    }
    img
}

#[test]
fn scan_box_holds_every_hit_and_each_bound_carries_one() {
    let img = with_pixels(8, 6, BLACK, &[(2, 3), (5, 1), (3, 4), (4, 2)], WHITE);
    let b = scan(&img, Criterion::Bright);
    assert_eq!(b, BoundingBox { min_x: 2, min_y: 1, max_x: 5, max_y: 4 });
    assert!(b.is_valid());
    let mut left = false;
    let mut right = false;
    let mut top = false;
    let mut bottom = false;
    for y in 0..6 {
        for x in 0..8 {
            if Criterion::Bright.test(img.pixel(x, y)) {
                assert!(b.min_x <= x && x <= b.max_x && b.min_y <= y && y <= b.max_y);
                left |= x == b.min_x;
                right |= x == b.max_x;
                top |= y == b.min_y;
                bottom |= y == b.max_y;
            }
        }
    }
    assert!(left && right && top && bottom);
}

#[test]
fn scan_without_hit_reports_the_empty_box() {
    let img = Image::new(8, 6, BLACK);
    for criterion in [Criterion::Bright, Criterion::NonBlack] {
        let b = scan(&img, criterion);
        assert_eq!(b, BoundingBox { min_x: 8, min_y: 6, max_x: 0, max_y: 0 });
        assert!(!b.is_valid());
    }
    let b = scan(&Image::new(8, 6, CLEAR), Criterion::Opaque);
    assert_eq!(b, BoundingBox { min_x: 8, min_y: 6, max_x: 0, max_y: 0 });
    assert!(!b.is_valid());
}

#[test]
fn scan_of_a_single_hit_is_not_valid() {
    let img = with_pixels(8, 6, BLACK, &[(3, 2)], WHITE);
    let b = scan(&img, Criterion::Bright);
    assert_eq!(b, BoundingBox { min_x: 3, min_y: 2, max_x: 3, max_y: 2 });
    assert!(!b.is_valid());
}

#[test]
fn scan_of_hits_in_one_column_or_row_is_not_valid() {
    let column = with_pixels(8, 6, BLACK, &[(3, 1), (3, 4)], WHITE);
    let b = scan(&column, Criterion::Bright);
    assert_eq!(b, BoundingBox { min_x: 3, min_y: 1, max_x: 3, max_y: 4 });
    assert!(!b.is_valid());
    let row = with_pixels(8, 6, BLACK, &[(1, 5), (7, 5)], WHITE);
    let b = scan(&row, Criterion::Bright);
    assert_eq!(b, BoundingBox { min_x: 1, min_y: 5, max_x: 7, max_y: 5 });
    assert!(!b.is_valid());
}

#[test]
fn scan_of_a_hit_at_the_origin() {
    let img = with_pixels(8, 6, BLACK, &[(0, 0)], WHITE);
    let b = scan(&img, Criterion::Bright);
    assert_eq!(b, BoundingBox { min_x: 0, min_y: 0, max_x: 0, max_y: 0 });
    assert!(!b.is_valid());
}

#[test]
fn scan_of_hits_in_opposite_corners_spans_the_image() {
    let img = with_pixels(8, 6, BLACK, &[(7, 0), (0, 5)], WHITE);
    let b = scan(&img, Criterion::Bright);
    assert_eq!(b, BoundingBox { min_x: 0, min_y: 0, max_x: 7, max_y: 5 });
    assert!(b.is_valid());
}

#[test]
fn scan_of_an_image_without_pixels() {
    for (width, height) in [(0, 0), (5, 0), (0, 4)] {
        let b = scan(&Image::new(width, height, WHITE), Criterion::Bright);
        assert_eq!(b, BoundingBox { min_x: width, min_y: height, max_x: 0, max_y: 0 });
        assert!(!b.is_valid());
    }
}

#[test]
fn scan_reads_the_channels_that_the_test_names() {
    let dim = Pixel { r: 30, g: 30, b: 30, a: 0 };
    let img = with_pixels(8, 6, Pixel { r: 0, g: 0, b: 0, a: 0 }, &[(1, 1), (4, 3)], dim);
    assert!(!scan(&img, Criterion::Opaque).is_valid());
    assert!(!scan(&img, Criterion::Bright).is_valid());
    assert_eq!(
        scan(&img, Criterion::NonBlack),
        BoundingBox { min_x: 1, min_y: 1, max_x: 4, max_y: 3 }
    );
    let img = with_pixels(8, 6, CLEAR, &[(2, 0), (6, 5)], BLACK);
    assert_eq!(
        scan(&img, Criterion::Opaque),
        BoundingBox { min_x: 2, min_y: 0, max_x: 6, max_y: 5 }
    );
}
