use image_cropper::contour::{
    contour_extent, contour_mask, contour_twice_area, largest_contour, Extent, Point, MASK_ON,
    MASK_THRESHOLD,
};
use image_cropper::cropper::{crop_contour, crop_image, CropError, CropMethod, CropStep};
use image_cropper::pixel::Pixel;
use image_cropper::raster::Image;

const BLACK: Pixel = Pixel { r: 0, g: 0, b: 0, a: 255 };
const WHITE: Pixel = Pixel { r: 255, g: 255, b: 255, a: 255 };

fn pt(x: i32, y: i32) -> Point {
    Point { x, y }
}

/// The outline of the square of pixels from `(x, y)` to `(x + side - 1, y + side - 1)`.
fn square(x: i32, y: i32, side: i32) -> Vec<Point> {
    let far = side - 1;
    vec![pt(x, y), pt(x, y + far), pt(x + far, y + far), pt(x + far, y)]
}

fn fill(img: &mut Image, x: u32, y: u32, width: u32, height: u32, p: Pixel) {
    for j in 0..height {
        for i in 0..width {
            assert!(img.set_pixel(x + i, y + j, p));
        }
    }
}

#[test]
fn mask_constants_are_as_stated() {
    assert_eq!(MASK_THRESHOLD, 10);
    assert_eq!(MASK_ON, 255);
}

#[test]
fn mask_is_on_where_luma_reaches_ten() {
    let img = Image::from_rows(vec![
        vec![
            Pixel { r: 9, g: 9, b: 9, a: 255 },
            Pixel { r: 10, g: 10, b: 10, a: 255 },
            Pixel { r: 0, g: 0, b: 0, a: 255 },
        ],
        vec![
            Pixel { r: 0, g: 0, b: 138, a: 255 },
            Pixel { r: 0, g: 0, b: 139, a: 255 },
            Pixel { r: 255, g: 255, b: 255, a: 0 },
        ],
    ])
    .unwrap();
    assert_eq!(contour_mask(&img), vec![vec![0, 255, 0], vec![0, 255, 255]]);
}

#[test]
fn mask_has_the_shape_of_the_image() {
    assert_eq!(contour_mask(&Image::new(0, 0, WHITE)), Vec::<Vec<u8>>::new());
    assert_eq!(contour_mask(&Image::new(0, 2, WHITE)), vec![Vec::<u8>::new(), Vec::new()]);
    assert_eq!(contour_mask(&Image::new(3, 2, WHITE)), vec![vec![255u8; 3]; 2]);
    assert_eq!(contour_mask(&Image::new(3, 2, BLACK)), vec![vec![0u8; 3]; 2]);
}

#[test]
fn twice_area_of_a_square_outline() {
    assert_eq!(contour_twice_area(&square(0, 0, 10)), 162);
    assert_eq!(contour_twice_area(&square(30, 20, 20)), 722);
    assert_eq!(contour_twice_area(&square(-7, -3, 2)), 2);
}

#[test]
fn twice_area_does_not_depend_on_direction_or_start() {
    let forward = vec![pt(0, 0), pt(4, 0), pt(4, 3), pt(0, 3)];
    let backward = vec![pt(0, 3), pt(4, 3), pt(4, 0), pt(0, 0)];
    let shifted = vec![pt(4, 3), pt(0, 3), pt(0, 0), pt(4, 0)];
    assert_eq!(contour_twice_area(&forward), 24);
    assert_eq!(contour_twice_area(&backward), 24);
    assert_eq!(contour_twice_area(&shifted), 24);
}

#[test]
fn twice_area_of_a_triangle() {
    assert_eq!(contour_twice_area(&vec![pt(0, 0), pt(4, 0), pt(0, 3)]), 12);
    assert_eq!(contour_twice_area(&vec![pt(1, 1), pt(2, 5), pt(6, 2)]), 19);
}

#[test]
fn twice_area_of_fewer_than_three_points_is_zero() {
    assert_eq!(contour_twice_area(&Vec::new()), 0);
    assert_eq!(contour_twice_area(&vec![pt(5, 7)]), 0);
    assert_eq!(contour_twice_area(&vec![pt(5, 7), pt(-2, 9)]), 0);
}

#[test]
fn twice_area_of_the_widest_square() {
    let lo = i32::MIN;
    let hi = i32::MAX;
    let outline = vec![pt(lo, lo), pt(hi, lo), pt(hi, hi), pt(lo, hi)];
    let side = u32::MAX as u128;
    assert_eq!(contour_twice_area(&outline), 2 * side * side);
}

#[test]
fn largest_contour_has_the_largest_area() {
    let contours = vec![square(0, 0, 3), square(10, 10, 8), square(40, 0, 5)];
    assert_eq!(largest_contour(&contours), Some(1));
    let contours = vec![square(0, 0, 9), square(10, 10, 8), square(40, 0, 5)];
    assert_eq!(largest_contour(&contours), Some(0));
    let contours = vec![square(0, 0, 3), square(10, 10, 8), square(40, 0, 15)];
    assert_eq!(largest_contour(&contours), Some(2));
}

#[test]
fn largest_contour_is_the_first_of_equals() {
    let contours = vec![square(0, 0, 3), square(10, 10, 8), square(40, 0, 8), square(60, 0, 8)];
    assert_eq!(largest_contour(&contours), Some(1));
    let contours = vec![vec![pt(1, 1)], Vec::new(), vec![pt(2, 2), pt(3, 3)]];
    assert_eq!(largest_contour(&contours), Some(0));
}

#[test]
fn largest_contour_of_none() {
    assert_eq!(largest_contour(&Vec::new()), None);
    assert_eq!(largest_contour(&vec![Vec::new()]), Some(0));
}

#[test]
fn extent_spans_the_points() {
    let outline = vec![pt(4, 9), pt(-2, 3), pt(7, 5), pt(0, -6)];
    assert_eq!(
        contour_extent(&outline),
        Some(Extent { min_x: -2, min_y: -6, max_x: 7, max_y: 9 })
    );
    assert_eq!(
        contour_extent(&vec![pt(4, 9)]),
        Some(Extent { min_x: 4, min_y: 9, max_x: 4, max_y: 9 })
    );
    assert_eq!(contour_extent(&Vec::new()), None);
}

#[test]
fn contour_crop_keeps_the_larger_of_two_squares() {
    let mut img = Image::new(60, 50, BLACK);
    fill(&mut img, 5, 5, 10, 10, WHITE);
    fill(&mut img, 30, 20, 20, 20, Pixel { r: 250, g: 240, b: 230, a: 255 });
    let mask = contour_mask(&img);
    for y in 0..50usize {
        for x in 0..60usize {
            let inside = (5..15).contains(&x) && (5..15).contains(&y)
                || (30..50).contains(&x) && (20..40).contains(&y);
            assert_eq!(mask[y][x], if inside { 255 } else { 0 });
        }
    }
    let contours = vec![square(5, 5, 10), square(30, 20, 20)];
    let out = crop_contour(&img, &contours).unwrap();
    assert_eq!(out.width(), 20);
    assert_eq!(out.height(), 20);
    assert_eq!(out, Image::new(20, 20, Pixel { r: 250, g: 240, b: 230, a: 255 }));
    assert_eq!(out, img.crop(30, 20, 20, 20));
    let contours = vec![square(30, 20, 20), square(5, 5, 10)];
    assert_eq!(crop_contour(&img, &contours), Ok(out));
}

#[test]
fn contour_crop_takes_the_pixels_of_the_image_not_of_the_mask() {
    let mut img = Image::new(9, 9, BLACK);
    fill(&mut img, 2, 3, 4, 5, Pixel { r: 12, g: 90, b: 7, a: 31 });
    assert!(img.set_pixel(3, 4, BLACK));
    let out = crop_contour(&img, &vec![vec![pt(2, 3), pt(2, 7), pt(5, 7), pt(5, 3)]]).unwrap();
    assert_eq!(out, img.crop(2, 3, 4, 5));
    assert_eq!(out.get(0, 0), Some(Pixel { r: 12, g: 90, b: 7, a: 31 }));
    assert_eq!(out.get(1, 1), Some(BLACK));
}

#[test]
fn contour_crop_of_a_single_point_is_one_pixel() {
    let mut img = Image::new(9, 9, BLACK);
    assert!(img.set_pixel(8, 8, WHITE));
    let out = crop_contour(&img, &vec![vec![pt(8, 8)]]).unwrap();
    assert_eq!(out, Image::new(1, 1, WHITE));
}

#[test]
fn contour_crop_without_contours_fails() {
    let img = Image::new(9, 9, WHITE);
    assert_eq!(crop_contour(&img, &Vec::new()), Err(CropError::NoContoursFound));
    assert_eq!(crop_contour(&Image::new(0, 0, WHITE), &Vec::new()), Err(CropError::NoContoursFound));
}

#[test]
fn contour_crop_outside_the_image_fails() {
    let img = Image::new(9, 7, WHITE);
    assert!(crop_contour(&img, &vec![square(0, 0, 7)]).is_ok());
    assert_eq!(crop_contour(&img, &vec![square(3, 0, 7)]), Err(CropError::InvalidGeometry));
    assert_eq!(crop_contour(&img, &vec![square(0, 1, 7)]), Err(CropError::InvalidGeometry));
    assert_eq!(crop_contour(&img, &vec![square(-1, 0, 4)]), Err(CropError::InvalidGeometry));
    assert_eq!(crop_contour(&img, &vec![square(0, -1, 4)]), Err(CropError::InvalidGeometry));
    assert_eq!(
        crop_contour(&img, &vec![vec![pt(0, 0), pt(i32::MAX, i32::MAX)]]),
        Err(CropError::InvalidGeometry)
    );
    assert_eq!(
        crop_contour(&Image::new(0, 0, WHITE), &vec![vec![pt(0, 0)]]),
        Err(CropError::InvalidGeometry)
    );
}

#[test]
fn contour_crop_of_a_contour_without_points_fails() {
    let img = Image::new(9, 7, WHITE);
    assert_eq!(crop_contour(&img, &vec![Vec::new()]), Err(CropError::InvalidGeometry));
    assert_eq!(
        crop_contour(&img, &vec![Vec::new(), vec![pt(1, 1)]]),
        Err(CropError::InvalidGeometry)
    );
}

#[test]
fn crop_image_hands_out_the_mask_for_contours() {
    let mut img = Image::new(4, 3, BLACK);
    fill(&mut img, 1, 1, 2, 2, WHITE);
    let step = crop_image(&img, &CropMethod::Contour);
    assert_eq!(
        step,
        CropStep::TraceContours(vec![vec![0, 0, 0, 0], vec![0, 255, 255, 0], vec![0, 255, 255, 0]])
    );
    let mask = match step {
        CropStep::TraceContours(mask) => mask,
        CropStep::Finished(_) => unreachable!(),
    };
    assert_eq!(mask, contour_mask(&img));
    let out = crop_contour(&img, &vec![square(1, 1, 2)]).unwrap();
    assert_eq!(out, Image::new(2, 2, WHITE));
}
