use raster::error::RasterError;
use raster::{editor, BlendMode, Color, Image, PositionMode, ResizeMode};

/// An opaque 4 x 3 image.
fn base() -> Image {
    let mut image = Image::blank(4, 3);
    for y in 0..3 {
        for x in 0..4 {
            image.set_pixel(x, y, &Color::rgba((10 * x + 40 * y) as u8, (5 * x) as u8, (200 - 30 * y) as u8, 255)).unwrap();
        }
    }
    image
}

/// The same image with an alpha that falls from column to column.
fn base_with_alpha() -> Image {
    let mut image = base();
    for y in 0..3 {
        for x in 0..4 {
            let mut color = image.get_pixel(x, y).unwrap();
            color.a = (255 - x) as u8;
            image.set_pixel(x, y, &color).unwrap();
        }
    }
    image
}

/// A 2 x 2 image whose second column is translucent.
fn top() -> Image {
    let mut image = Image::blank(2, 2);
    for y in 0..2 {
        for x in 0..2 {
            image.set_pixel(x, y, &Color::rgba((255 - 20 * x) as u8, (100 + 50 * y) as u8, 9, (255 - 100 * x) as u8)).unwrap();
        }
    }
    image
}

#[test]
fn blend_normal() {
    assert_eq!(editor::blend(&base(), &top(), BlendMode::Normal, 10000, PositionMode::TopLeft, 1, 1).unwrap().bytes, vec![0, 0, 200, 255, 10, 5, 200, 255, 20, 10, 200, 255, 30, 15, 200, 255, 40, 0, 170, 255, 255, 100, 9, 255, 166, 64, 72, 255, 70, 15, 170, 255, 80, 0, 140, 255, 255, 150, 9, 255, 182, 95, 60, 255, 110, 15, 140, 255]);
    assert_eq!(editor::blend(&base(), &top(), BlendMode::Normal, 5000, PositionMode::Center, 0, 0).unwrap().bytes, vec![0, 0, 200, 255, 132, 52, 104, 255, 85, 37, 141, 255, 30, 15, 200, 255, 40, 0, 170, 255, 152, 77, 89, 255, 113, 52, 121, 255, 70, 15, 170, 255, 80, 0, 140, 255, 90, 5, 140, 255, 100, 10, 140, 255, 110, 15, 140, 255]);
    assert_eq!(editor::blend(&base_with_alpha(), &top(), BlendMode::Normal, 7500, PositionMode::BottomRight, 0, 0).unwrap().bytes, vec![0, 0, 200, 255, 10, 5, 200, 254, 20, 10, 200, 253, 30, 15, 200, 252, 40, 0, 170, 255, 50, 5, 170, 254, 206, 77, 48, 255, 144, 53, 95, 255, 80, 0, 140, 255, 90, 5, 140, 254, 216, 114, 41, 255, 166, 76, 79, 255]);
}

#[test]
fn blend_difference() {
    assert_eq!(editor::blend(&base(), &top(), BlendMode::Difference, 10000, PositionMode::TopLeft, 1, 1).unwrap().bytes, vec![0, 0, 200, 255, 10, 5, 200, 255, 20, 10, 200, 255, 30, 15, 200, 255, 40, 0, 170, 255, 205, 95, 161, 255, 129, 58, 164, 255, 70, 15, 170, 255, 80, 0, 140, 255, 165, 145, 131, 255, 121, 89, 134, 255, 110, 15, 140, 255]);
    assert_eq!(editor::blend(&base(), &top(), BlendMode::Difference, 5000, PositionMode::Center, 0, 0).unwrap().bytes, vec![0, 0, 200, 255, 127, 50, 195, 255, 79, 34, 197, 255, 30, 15, 200, 255, 40, 0, 170, 255, 127, 75, 165, 255, 94, 49, 167, 255, 70, 15, 170, 255, 80, 0, 140, 255, 90, 5, 140, 255, 100, 10, 140, 255, 110, 15, 140, 255]);
    assert_eq!(editor::blend(&base_with_alpha(), &top(), BlendMode::Difference, 7500, PositionMode::BottomRight, 0, 0).unwrap().bytes, vec![0, 0, 200, 255, 10, 5, 200, 254, 20, 10, 200, 253, 30, 15, 200, 252, 40, 0, 170, 255, 50, 5, 170, 254, 161, 70, 161, 255, 113, 46, 163, 255, 80, 0, 140, 255, 90, 5, 140, 254, 141, 107, 132, 255, 116, 69, 134, 255]);
}

#[test]
fn blend_multiply() {
    assert_eq!(editor::blend(&base(), &top(), BlendMode::Multiply, 10000, PositionMode::TopLeft, 1, 1).unwrap().bytes, vec![0, 0, 200, 255, 10, 5, 200, 255, 20, 10, 200, 255, 30, 15, 200, 255, 40, 0, 170, 255, 50, 1, 6, 255, 57, 6, 70, 255, 70, 15, 170, 255, 80, 0, 140, 255, 90, 2, 4, 255, 95, 7, 57, 255, 110, 15, 140, 255]);
    assert_eq!(editor::blend(&base(), &top(), BlendMode::Multiply, 5000, PositionMode::Center, 0, 0).unwrap().bytes, vec![0, 0, 200, 255, 10, 3, 103, 255, 19, 8, 141, 255, 30, 15, 200, 255, 40, 0, 170, 255, 50, 3, 88, 255, 58, 8, 120, 255, 70, 15, 170, 255, 80, 0, 140, 255, 90, 5, 140, 255, 100, 10, 140, 255, 110, 15, 140, 255]);
    assert_eq!(editor::blend(&base_with_alpha(), &top(), BlendMode::Multiply, 7500, PositionMode::BottomRight, 0, 0).unwrap().bytes, vec![0, 0, 200, 255, 10, 5, 200, 254, 20, 10, 200, 253, 30, 15, 200, 252, 40, 0, 170, 255, 50, 5, 170, 254, 59, 5, 46, 255, 66, 10, 94, 255, 80, 0, 140, 255, 90, 5, 140, 254, 99, 6, 38, 255, 104, 12, 77, 255]);
}

#[test]
fn blend_overlay() {
    assert_eq!(editor::blend(&base(), &top(), BlendMode::Overlay, 10000, PositionMode::TopLeft, 1, 1).unwrap().bytes, vec![0, 0, 200, 255, 10, 5, 200, 255, 20, 10, 200, 255, 30, 15, 200, 255, 40, 0, 170, 255, 100, 3, 91, 255, 90, 8, 121, 255, 70, 15, 170, 255, 80, 0, 140, 255, 180, 5, 33, 255, 151, 11, 75, 255, 110, 15, 140, 255]);
    assert_eq!(editor::blend(&base(), &top(), BlendMode::Overlay, 5000, PositionMode::Center, 0, 0).unwrap().bytes, vec![0, 0, 200, 255, 15, 4, 174, 255, 25, 9, 184, 255, 30, 15, 200, 255, 40, 0, 170, 255, 75, 5, 130, 255, 75, 10, 145, 255, 70, 15, 170, 255, 80, 0, 140, 255, 90, 5, 140, 255, 100, 10, 140, 255, 110, 15, 140, 255]);
    assert_eq!(editor::blend(&base_with_alpha(), &top(), BlendMode::Overlay, 7500, PositionMode::BottomRight, 0, 0).unwrap().bytes, vec![0, 0, 200, 255, 10, 5, 200, 254, 20, 10, 200, 253, 30, 15, 200, 252, 40, 0, 170, 255, 50, 5, 170, 254, 104, 8, 108, 255, 95, 13, 131, 255, 80, 0, 140, 255, 90, 5, 140, 254, 173, 11, 57, 255, 150, 16, 88, 255]);
}

#[test]
fn blend_screen() {
    assert_eq!(editor::blend(&base(), &top(), BlendMode::Screen, 10000, PositionMode::TopLeft, 1, 1).unwrap().bytes, vec![0, 0, 200, 255, 10, 5, 200, 255, 20, 10, 200, 255, 30, 15, 200, 255, 40, 0, 170, 255, 255, 103, 173, 255, 169, 68, 171, 255, 70, 15, 170, 255, 80, 0, 140, 255, 255, 152, 144, 255, 186, 97, 142, 255, 110, 15, 140, 255]);
    assert_eq!(editor::blend(&base(), &top(), BlendMode::Screen, 5000, PositionMode::Center, 0, 0).unwrap().bytes, vec![0, 0, 200, 255, 132, 54, 200, 255, 85, 39, 200, 255, 30, 15, 200, 255, 40, 0, 170, 255, 152, 78, 171, 255, 114, 53, 170, 255, 70, 15, 170, 255, 80, 0, 140, 255, 90, 5, 140, 255, 100, 10, 140, 255, 110, 15, 140, 255]);
    assert_eq!(editor::blend(&base_with_alpha(), &top(), BlendMode::Screen, 7500, PositionMode::BottomRight, 0, 0).unwrap().bytes, vec![0, 0, 200, 255, 10, 5, 200, 254, 20, 10, 200, 253, 30, 15, 200, 252, 40, 0, 170, 255, 50, 5, 170, 254, 206, 82, 170, 255, 147, 57, 169, 255, 80, 0, 140, 255, 90, 5, 140, 254, 216, 118, 141, 255, 170, 79, 140, 255]);
}

#[test]
fn blend_clips_to_the_canvas() {
    assert_eq!(editor::blend(&base(), &top(), BlendMode::Normal, 10000, PositionMode::TopLeft, -1, -1).unwrap().bytes, vec![142, 91, 83, 255, 10, 5, 200, 255, 20, 10, 200, 255, 30, 15, 200, 255, 40, 0, 170, 255, 50, 5, 170, 255, 60, 10, 170, 255, 70, 15, 170, 255, 80, 0, 140, 255, 90, 5, 140, 255, 100, 10, 140, 255, 110, 15, 140, 255]);
    assert_eq!(editor::blend(&base(), &top(), BlendMode::Normal, 10000, PositionMode::TopLeft, 3, 2).unwrap().bytes, vec![0, 0, 200, 255, 10, 5, 200, 255, 20, 10, 200, 255, 30, 15, 200, 255, 40, 0, 170, 255, 50, 5, 170, 255, 60, 10, 170, 255, 70, 15, 170, 255, 80, 0, 140, 255, 90, 5, 140, 255, 100, 10, 140, 255, 255, 100, 9, 255]);
    assert_eq!(editor::blend(&base(), &top(), BlendMode::Multiply, 10000, PositionMode::BottomRight, 1, 1).unwrap().bytes, vec![0, 0, 200, 255, 10, 5, 200, 255, 20, 10, 200, 255, 30, 15, 200, 255, 40, 0, 170, 255, 50, 5, 170, 255, 60, 10, 170, 255, 70, 15, 170, 255, 80, 0, 140, 255, 90, 5, 140, 255, 100, 10, 140, 255, 110, 5, 4, 255]);
}

#[test]
fn blend_outside_of_the_canvas_fails() {
    assert!(matches!(editor::blend(&base(), &top(), BlendMode::Normal, 10000, PositionMode::TopLeft, 4, 0), Err(RasterError::BlendingImageFallsOutsideCanvas)));
    assert!(matches!(editor::blend(&base(), &top(), BlendMode::Normal, 10000, PositionMode::TopLeft, -2, 0), Err(RasterError::BlendingImageFallsOutsideCanvas)));
    assert!(matches!(editor::blend(&base(), &top(), BlendMode::Normal, 10000, PositionMode::TopLeft, 0, 3), Err(RasterError::BlendingImageFallsOutsideCanvas)));
    assert!(matches!(editor::blend(&base(), &top(), BlendMode::Normal, 10000, PositionMode::TopLeft, 0, -2), Err(RasterError::BlendingImageFallsOutsideCanvas)));
    assert!(matches!(editor::blend(&base(), &top(), BlendMode::Screen, 10000, PositionMode::BottomRight, 2, 0), Err(RasterError::BlendingImageFallsOutsideCanvas)));
    assert!(matches!(editor::blend(&base(), &top(), BlendMode::Normal, 10000, PositionMode::TopLeft, 2147483647, 0), Err(RasterError::BlendingImageFallsOutsideCanvas)));
    assert!(matches!(editor::blend(&base(), &top(), BlendMode::Normal, 10000, PositionMode::BottomRight, -2147483648, -2147483648), Err(RasterError::BlendingImageFallsOutsideCanvas)));
}

#[test]
fn blend_takes_an_opacity_outside_of_its_range_for_the_nearest_bound() {
    let over = editor::blend(&base(), &top(), BlendMode::Normal, 25_000, PositionMode::Center, 0, 0).unwrap();
    let full = editor::blend(&base(), &top(), BlendMode::Normal, 10_000, PositionMode::Center, 0, 0).unwrap();
    assert_eq!(over.bytes, full.bytes);
    let under = editor::blend(&base(), &top(), BlendMode::Normal, -3, PositionMode::Center, 0, 0).unwrap();
    let none = editor::blend(&base(), &top(), BlendMode::Normal, 0, PositionMode::Center, 0, 0).unwrap();
    assert_eq!(under.bytes, none.bytes);
}

#[test]
fn blend_normal_with_no_opacity_keeps_an_opaque_base() {
    let blended = editor::blend(&base(), &top(), BlendMode::Normal, 0, PositionMode::Center, 0, 0).unwrap();
    assert_eq!(blended.bytes, base().bytes);
}

#[test]
fn blend_normal_with_no_opacity_scales_a_translucent_base_by_its_alpha() {
    let blended = editor::blend(&base_with_alpha(), &top(), BlendMode::Normal, 0, PositionMode::Center, 0, 0).unwrap();
    assert_eq!(blended.bytes, vec![0, 0, 200, 255, 9, 4, 199, 255, 19, 9, 198, 255, 30, 15, 200, 252, 40, 0, 170, 255, 49, 4, 169, 255, 59, 9, 168, 255, 70, 15, 170, 252, 80, 0, 140, 255, 90, 5, 140, 254, 100, 10, 140, 253, 110, 15, 140, 252]);
}

#[test]
fn blend_normal_with_full_opacity_shows_an_opaque_top() {
    let mut opaque = Image::blank(2, 2);
    for y in 0..2 {
        for x in 0..2 {
            opaque.set_pixel(x, y, &Color::rgba((50 * x + 7) as u8, (60 * y + 5) as u8, 200, 255)).unwrap();
        }
    }
    let blended = editor::blend(&base_with_alpha(), &opaque, BlendMode::Normal, 10_000, PositionMode::TopLeft, 1, 1).unwrap();
    for y in 0..2 {
        for x in 0..2 {
            assert_eq!(blended.get_pixel(x + 1, y + 1).unwrap(), opaque.get_pixel(x, y).unwrap());
        }
    }
    assert_eq!(blended.get_pixel(0, 0).unwrap(), base_with_alpha().get_pixel(0, 0).unwrap());
    assert_eq!(blended.get_pixel(3, 2).unwrap(), base_with_alpha().get_pixel(3, 2).unwrap());
}

#[test]
fn crop_at_each_anchor() {
    let mut image = base_with_alpha();
    editor::crop(&mut image, 2, 2, PositionMode::TopLeft, 0, 0).unwrap();
    assert_eq!((image.width, image.height), (2, 2));
    assert_eq!(image.bytes, vec![0, 0, 200, 255, 10, 5, 200, 254, 40, 0, 170, 255, 50, 5, 170, 254]);
    let mut image = base_with_alpha();
    editor::crop(&mut image, 2, 2, PositionMode::TopCenter, 0, 0).unwrap();
    assert_eq!((image.width, image.height), (2, 2));
    assert_eq!(image.bytes, vec![10, 5, 200, 254, 20, 10, 200, 253, 50, 5, 170, 254, 60, 10, 170, 253]);
    let mut image = base_with_alpha();
    editor::crop(&mut image, 2, 2, PositionMode::TopRight, 0, 0).unwrap();
    assert_eq!((image.width, image.height), (2, 2));
    assert_eq!(image.bytes, vec![20, 10, 200, 253, 30, 15, 200, 252, 60, 10, 170, 253, 70, 15, 170, 252]);
    let mut image = base_with_alpha();
    editor::crop(&mut image, 2, 2, PositionMode::CenterLeft, 0, 0).unwrap();
    assert_eq!((image.width, image.height), (2, 2));
    assert_eq!(image.bytes, vec![0, 0, 200, 255, 10, 5, 200, 254, 40, 0, 170, 255, 50, 5, 170, 254]);
    let mut image = base_with_alpha();
    editor::crop(&mut image, 2, 2, PositionMode::Center, 0, 0).unwrap();
    assert_eq!((image.width, image.height), (2, 2));
    assert_eq!(image.bytes, vec![10, 5, 200, 254, 20, 10, 200, 253, 50, 5, 170, 254, 60, 10, 170, 253]);
    let mut image = base_with_alpha();
    editor::crop(&mut image, 2, 2, PositionMode::CenterRight, 0, 0).unwrap();
    assert_eq!((image.width, image.height), (2, 2));
    assert_eq!(image.bytes, vec![20, 10, 200, 253, 30, 15, 200, 252, 60, 10, 170, 253, 70, 15, 170, 252]);
    let mut image = base_with_alpha();
    editor::crop(&mut image, 2, 2, PositionMode::BottomLeft, 0, 0).unwrap();
    assert_eq!((image.width, image.height), (2, 2));
    assert_eq!(image.bytes, vec![40, 0, 170, 255, 50, 5, 170, 254, 80, 0, 140, 255, 90, 5, 140, 254]);
    let mut image = base_with_alpha();
    editor::crop(&mut image, 2, 2, PositionMode::BottomCenter, 0, 0).unwrap();
    assert_eq!((image.width, image.height), (2, 2));
    assert_eq!(image.bytes, vec![50, 5, 170, 254, 60, 10, 170, 253, 90, 5, 140, 254, 100, 10, 140, 253]);
    let mut image = base_with_alpha();
    editor::crop(&mut image, 2, 2, PositionMode::BottomRight, 0, 0).unwrap();
    assert_eq!((image.width, image.height), (2, 2));
    assert_eq!(image.bytes, vec![60, 10, 170, 253, 70, 15, 170, 252, 100, 10, 140, 253, 110, 15, 140, 252]);
}

#[test]
fn crop_with_offsets() {
    let mut image = base_with_alpha();
    editor::crop(&mut image, 2, 1, PositionMode::TopLeft, 1, 1).unwrap();
    assert_eq!((image.width, image.height), (2, 1));
    assert_eq!(image.bytes, vec![50, 5, 170, 254, 60, 10, 170, 253]);
    let mut image = base_with_alpha();
    editor::crop(&mut image, 3, 2, PositionMode::Center, 1, 0).unwrap();
    assert_eq!((image.width, image.height), (2, 2));
    assert_eq!(image.bytes, vec![20, 10, 200, 253, 30, 15, 200, 252, 60, 10, 170, 253, 70, 15, 170, 252]);
    let mut image = base_with_alpha();
    editor::crop(&mut image, 2, 2, PositionMode::BottomRight, -1, -1).unwrap();
    assert_eq!((image.width, image.height), (2, 2));
    assert_eq!(image.bytes, vec![10, 5, 200, 254, 20, 10, 200, 253, 50, 5, 170, 254, 60, 10, 170, 253]);
}

#[test]
fn crop_is_cut_to_the_image() {
    let mut image = base_with_alpha();
    editor::crop(&mut image, 10, 10, PositionMode::TopLeft, 0, 0).unwrap();
    assert_eq!((image.width, image.height), (4, 3));
    assert_eq!(image.bytes, vec![0, 0, 200, 255, 10, 5, 200, 254, 20, 10, 200, 253, 30, 15, 200, 252, 40, 0, 170, 255, 50, 5, 170, 254, 60, 10, 170, 253, 70, 15, 170, 252, 80, 0, 140, 255, 90, 5, 140, 254, 100, 10, 140, 253, 110, 15, 140, 252]);
    let mut image = base_with_alpha();
    editor::crop(&mut image, 3, 3, PositionMode::TopLeft, 2, 1).unwrap();
    assert_eq!((image.width, image.height), (2, 2));
    assert_eq!(image.bytes, vec![60, 10, 170, 253, 70, 15, 170, 252, 100, 10, 140, 253, 110, 15, 140, 252]);
    let mut image = base_with_alpha();
    editor::crop(&mut image, 3, 3, PositionMode::TopLeft, -2, -2).unwrap();
    assert_eq!((image.width, image.height), (3, 3));
    assert_eq!(image.bytes, vec![0, 0, 200, 255, 10, 5, 200, 254, 20, 10, 200, 253, 40, 0, 170, 255, 50, 5, 170, 254, 60, 10, 170, 253, 80, 0, 140, 255, 90, 5, 140, 254, 100, 10, 140, 253]);
    let mut image = base_with_alpha();
    editor::crop(&mut image, 6, 2, PositionMode::Center, 0, 0).unwrap();
    assert_eq!((image.width, image.height), (4, 2));
    assert_eq!(image.bytes, vec![0, 0, 200, 255, 10, 5, 200, 254, 20, 10, 200, 253, 30, 15, 200, 252, 40, 0, 170, 255, 50, 5, 170, 254, 60, 10, 170, 253, 70, 15, 170, 252]);
}

#[test]
fn crop_that_misses_the_image_leaves_nothing() {
    let mut image = base_with_alpha();
    editor::crop(&mut image, 2, 2, PositionMode::TopLeft, 4, 0).unwrap();
    assert_eq!((image.width, image.height), (0, 2));
    assert_eq!(image.bytes, vec![]);
    let mut image = base_with_alpha();
    editor::crop(&mut image, 2, 2, PositionMode::TopLeft, 0, 3).unwrap();
    assert_eq!((image.width, image.height), (2, 0));
    assert_eq!(image.bytes, vec![]);
    let mut image = base_with_alpha();
    editor::crop(&mut image, 0, 2, PositionMode::TopLeft, 0, 0).unwrap();
    assert_eq!((image.width, image.height), (0, 2));
    assert_eq!(image.bytes, vec![]);
    let mut image = base_with_alpha();
    editor::crop(&mut image, -3, 2, PositionMode::TopLeft, 0, 0).unwrap();
    assert_eq!((image.width, image.height), (0, 2));
    assert_eq!(image.bytes, vec![]);
    let mut image = base_with_alpha();
    editor::crop(&mut image, 2, -1, PositionMode::Center, 0, 0).unwrap();
    assert_eq!((image.width, image.height), (2, 0));
    assert_eq!(image.bytes, vec![]);
}

#[test]
fn fill_sets_every_pixel() {
    let mut image = base_with_alpha();
    editor::fill(&mut image, Color::rgba(1, 2, 3, 4)).unwrap();
    assert_eq!((image.width, image.height), (4, 3));
    assert_eq!(image.bytes, [1u8, 2, 3, 4].repeat(12));
    let mut image = Image::blank(0, 3);
    editor::fill(&mut image, Color::red()).unwrap();
    assert!(image.bytes.is_empty());
}

#[test]
fn resize_exact() {
    let mut image = base_with_alpha();
    editor::resize(&mut image, 2, 2, ResizeMode::Exact).unwrap();
    assert_eq!((image.width, image.height), (2, 2));
    assert_eq!(image.bytes, vec![0, 0, 200, 255, 20, 10, 200, 253, 60, 0, 155, 255, 80, 10, 155, 253]);
    let mut image = base_with_alpha();
    editor::resize(&mut image, 6, 5, ResizeMode::Exact).unwrap();
    assert_eq!((image.width, image.height), (6, 5));
    assert_eq!(image.bytes, vec![0, 0, 200, 255, 6, 3, 200, 254, 13, 6, 200, 253, 20, 10, 200, 253, 26, 13, 200, 252, 30, 15, 200, 252, 24, 0, 182, 255, 30, 3, 182, 254, 37, 6, 182, 253, 44, 10, 182, 253, 50, 13, 182, 252, 54, 15, 182, 252, 48, 0, 164, 255, 54, 3, 164, 254, 61, 6, 164, 253, 68, 10, 164, 253, 74, 13, 164, 252, 78, 15, 164, 252, 72, 0, 146, 255, 78, 3, 146, 254, 85, 6, 146, 253, 92, 10, 146, 253, 98, 13, 146, 252, 102, 15, 146, 252, 80, 0, 140, 255, 86, 3, 140, 254, 93, 6, 140, 253, 100, 10, 140, 253, 106, 13, 140, 252, 110, 15, 140, 252]);
    let mut image = base_with_alpha();
    editor::resize(&mut image, 4, 3, ResizeMode::Exact).unwrap();
    assert_eq!((image.width, image.height), (4, 3));
    assert_eq!(image.bytes, vec![0, 0, 200, 255, 10, 5, 200, 254, 20, 10, 200, 253, 30, 15, 200, 252, 40, 0, 170, 255, 50, 5, 170, 254, 60, 10, 170, 253, 70, 15, 170, 252, 80, 0, 140, 255, 90, 5, 140, 254, 100, 10, 140, 253, 110, 15, 140, 252]);
    let mut image = base_with_alpha();
    editor::resize(&mut image, 1, 1, ResizeMode::Exact).unwrap();
    assert_eq!((image.width, image.height), (1, 1));
    assert_eq!(image.bytes, vec![0, 0, 200, 255]);
}

#[test]
fn resize_exact_width() {
    let mut image = base_with_alpha();
    editor::resize(&mut image, 8, 100, ResizeMode::ExactWidth).unwrap();
    assert_eq!((image.width, image.height), (8, 6));
    assert_eq!(image.bytes, vec![0, 0, 200, 255, 5, 2, 200, 254, 10, 5, 200, 254, 15, 7, 200, 253, 20, 10, 200, 253, 25, 12, 200, 252, 30, 15, 200, 252, 30, 15, 200, 252, 20, 0, 185, 255, 25, 2, 185, 254, 30, 5, 185, 254, 35, 7, 185, 253, 40, 10, 185, 253, 45, 12, 185, 252, 50, 15, 185, 252, 50, 15, 185, 252, 40, 0, 170, 255, 45, 2, 170, 254, 50, 5, 170, 254, 55, 7, 170, 253, 60, 10, 170, 253, 65, 12, 170, 252, 70, 15, 170, 252, 70, 15, 170, 252, 60, 0, 155, 255, 65, 2, 155, 254, 70, 5, 155, 254, 75, 7, 155, 253, 80, 10, 155, 253, 85, 12, 155, 252, 90, 15, 155, 252, 90, 15, 155, 252, 80, 0, 140, 255, 85, 2, 140, 254, 90, 5, 140, 254, 95, 7, 140, 253, 100, 10, 140, 253, 105, 12, 140, 252, 110, 15, 140, 252, 110, 15, 140, 252, 80, 0, 140, 255, 85, 2, 140, 254, 90, 5, 140, 254, 95, 7, 140, 253, 100, 10, 140, 253, 105, 12, 140, 252, 110, 15, 140, 252, 110, 15, 140, 252]);
    let mut image = base_with_alpha();
    editor::resize(&mut image, 2, 0, ResizeMode::ExactWidth).unwrap();
    assert_eq!((image.width, image.height), (2, 2));
    assert_eq!(image.bytes, vec![0, 0, 200, 255, 20, 10, 200, 253, 60, 0, 155, 255, 80, 10, 155, 253]);
    let mut image = base_with_alpha();
    editor::resize(&mut image, 3, 1, ResizeMode::ExactWidth).unwrap();
    assert_eq!((image.width, image.height), (3, 2));
    assert_eq!(image.bytes, vec![0, 0, 200, 255, 13, 6, 200, 253, 26, 13, 200, 252, 60, 0, 155, 255, 73, 6, 155, 253, 86, 13, 155, 252]);
}

#[test]
fn resize_exact_height() {
    let mut image = base_with_alpha();
    editor::resize(&mut image, 100, 6, ResizeMode::ExactHeight).unwrap();
    assert_eq!((image.width, image.height), (8, 6));
    assert_eq!(image.bytes, vec![0, 0, 200, 255, 5, 2, 200, 254, 10, 5, 200, 254, 15, 7, 200, 253, 20, 10, 200, 253, 25, 12, 200, 252, 30, 15, 200, 252, 30, 15, 200, 252, 20, 0, 185, 255, 25, 2, 185, 254, 30, 5, 185, 254, 35, 7, 185, 253, 40, 10, 185, 253, 45, 12, 185, 252, 50, 15, 185, 252, 50, 15, 185, 252, 40, 0, 170, 255, 45, 2, 170, 254, 50, 5, 170, 254, 55, 7, 170, 253, 60, 10, 170, 253, 65, 12, 170, 252, 70, 15, 170, 252, 70, 15, 170, 252, 60, 0, 155, 255, 65, 2, 155, 254, 70, 5, 155, 254, 75, 7, 155, 253, 80, 10, 155, 253, 85, 12, 155, 252, 90, 15, 155, 252, 90, 15, 155, 252, 80, 0, 140, 255, 85, 2, 140, 254, 90, 5, 140, 254, 95, 7, 140, 253, 100, 10, 140, 253, 105, 12, 140, 252, 110, 15, 140, 252, 110, 15, 140, 252, 80, 0, 140, 255, 85, 2, 140, 254, 90, 5, 140, 254, 95, 7, 140, 253, 100, 10, 140, 253, 105, 12, 140, 252, 110, 15, 140, 252, 110, 15, 140, 252]);
    let mut image = base_with_alpha();
    editor::resize(&mut image, 0, 2, ResizeMode::ExactHeight).unwrap();
    assert_eq!((image.width, image.height), (2, 2));
    assert_eq!(image.bytes, vec![0, 0, 200, 255, 20, 10, 200, 253, 60, 0, 155, 255, 80, 10, 155, 253]);
    let mut image = base_with_alpha();
    editor::resize(&mut image, 1, 4, ResizeMode::ExactHeight).unwrap();
    assert_eq!((image.width, image.height), (5, 4));
    assert_eq!(image.bytes, vec![0, 0, 200, 255, 8, 4, 200, 254, 16, 8, 200, 253, 24, 12, 200, 252, 30, 15, 200, 252, 30, 0, 177, 255, 38, 4, 177, 254, 46, 8, 177, 253, 54, 12, 177, 252, 60, 15, 177, 252, 60, 0, 155, 255, 68, 4, 155, 254, 76, 8, 155, 253, 84, 12, 155, 252, 90, 15, 155, 252, 80, 0, 140, 255, 88, 4, 140, 254, 96, 8, 140, 253, 104, 12, 140, 252, 110, 15, 140, 252]);
}

#[test]
fn resize_fit() {
    let mut image = base_with_alpha();
    editor::resize(&mut image, 8, 8, ResizeMode::Fit).unwrap();
    assert_eq!((image.width, image.height), (8, 6));
    assert_eq!(image.bytes, vec![0, 0, 200, 255, 5, 2, 200, 254, 10, 5, 200, 254, 15, 7, 200, 253, 20, 10, 200, 253, 25, 12, 200, 252, 30, 15, 200, 252, 30, 15, 200, 252, 20, 0, 185, 255, 25, 2, 185, 254, 30, 5, 185, 254, 35, 7, 185, 253, 40, 10, 185, 253, 45, 12, 185, 252, 50, 15, 185, 252, 50, 15, 185, 252, 40, 0, 170, 255, 45, 2, 170, 254, 50, 5, 170, 254, 55, 7, 170, 253, 60, 10, 170, 253, 65, 12, 170, 252, 70, 15, 170, 252, 70, 15, 170, 252, 60, 0, 155, 255, 65, 2, 155, 254, 70, 5, 155, 254, 75, 7, 155, 253, 80, 10, 155, 253, 85, 12, 155, 252, 90, 15, 155, 252, 90, 15, 155, 252, 80, 0, 140, 255, 85, 2, 140, 254, 90, 5, 140, 254, 95, 7, 140, 253, 100, 10, 140, 253, 105, 12, 140, 252, 110, 15, 140, 252, 110, 15, 140, 252, 80, 0, 140, 255, 85, 2, 140, 254, 90, 5, 140, 254, 95, 7, 140, 253, 100, 10, 140, 253, 105, 12, 140, 252, 110, 15, 140, 252, 110, 15, 140, 252]);
    let mut image = base_with_alpha();
    editor::resize(&mut image, 8, 3, ResizeMode::Fit).unwrap();
    assert_eq!((image.width, image.height), (4, 3));
    assert_eq!(image.bytes, vec![0, 0, 200, 255, 10, 5, 200, 254, 20, 10, 200, 253, 30, 15, 200, 252, 40, 0, 170, 255, 50, 5, 170, 254, 60, 10, 170, 253, 70, 15, 170, 252, 80, 0, 140, 255, 90, 5, 140, 254, 100, 10, 140, 253, 110, 15, 140, 252]);
    let mut image = base_with_alpha();
    editor::resize(&mut image, 2, 6, ResizeMode::Fit).unwrap();
    assert_eq!((image.width, image.height), (2, 2));
    assert_eq!(image.bytes, vec![0, 0, 200, 255, 20, 10, 200, 253, 60, 0, 155, 255, 80, 10, 155, 253]);
}

#[test]
fn resize_fill() {
    let mut image = base_with_alpha();
    editor::resize(&mut image, 8, 8, ResizeMode::Fill).unwrap();
    assert_eq!((image.width, image.height), (8, 8));
    assert_eq!(image.bytes, vec![0, 0, 200, 255, 4, 2, 200, 254, 8, 4, 200, 254, 12, 6, 200, 253, 16, 8, 200, 253, 20, 10, 200, 253, 24, 12, 200, 252, 28, 14, 200, 252, 15, 0, 188, 255, 19, 2, 188, 254, 23, 4, 188, 254, 27, 6, 188, 253, 31, 8, 188, 253, 35, 10, 188, 253, 39, 12, 188, 252, 43, 14, 188, 252, 30, 0, 177, 255, 34, 2, 177, 254, 38, 4, 177, 254, 42, 6, 177, 253, 46, 8, 177, 253, 50, 10, 177, 253, 54, 12, 177, 252, 58, 14, 177, 252, 45, 0, 166, 255, 49, 2, 166, 254, 53, 4, 166, 254, 57, 6, 166, 253, 61, 8, 166, 253, 65, 10, 166, 253, 69, 12, 166, 252, 73, 14, 166, 252, 60, 0, 155, 255, 64, 2, 155, 254, 68, 4, 155, 254, 72, 6, 155, 253, 76, 8, 155, 253, 80, 10, 155, 253, 84, 12, 155, 252, 88, 14, 155, 252, 75, 0, 143, 255, 79, 2, 143, 254, 83, 4, 143, 254, 87, 6, 143, 253, 91, 8, 143, 253, 95, 10, 143, 253, 99, 12, 143, 252, 103, 14, 143, 252, 80, 0, 140, 255, 84, 2, 140, 254, 88, 4, 140, 254, 92, 6, 140, 253, 96, 8, 140, 253, 100, 10, 140, 253, 104, 12, 140, 252, 108, 14, 140, 252, 80, 0, 140, 255, 84, 2, 140, 254, 88, 4, 140, 254, 92, 6, 140, 253, 96, 8, 140, 253, 100, 10, 140, 253, 104, 12, 140, 252, 108, 14, 140, 252]);
    let mut image = base_with_alpha();
    editor::resize(&mut image, 8, 3, ResizeMode::Fill).unwrap();
    assert_eq!((image.width, image.height), (8, 3));
    assert_eq!(image.bytes, vec![0, 0, 200, 255, 5, 2, 200, 254, 10, 5, 200, 254, 15, 7, 200, 253, 20, 10, 200, 253, 25, 12, 200, 252, 30, 15, 200, 252, 30, 15, 200, 252, 20, 0, 185, 255, 25, 2, 185, 254, 30, 5, 185, 254, 35, 7, 185, 253, 40, 10, 185, 253, 45, 12, 185, 252, 50, 15, 185, 252, 50, 15, 185, 252, 40, 0, 170, 255, 45, 2, 170, 254, 50, 5, 170, 254, 55, 7, 170, 253, 60, 10, 170, 253, 65, 12, 170, 252, 70, 15, 170, 252, 70, 15, 170, 252]);
    let mut image = base_with_alpha();
    editor::resize(&mut image, 2, 6, ResizeMode::Fill).unwrap();
    assert_eq!((image.width, image.height), (2, 6));
    assert_eq!(image.bytes, vec![0, 0, 200, 255, 5, 2, 200, 254, 20, 0, 185, 255, 25, 2, 185, 254, 40, 0, 170, 255, 45, 2, 170, 254, 60, 0, 155, 255, 65, 2, 155, 254, 80, 0, 140, 255, 85, 2, 140, 254, 80, 0, 140, 255, 85, 2, 140, 254]);
    let mut image = base_with_alpha();
    editor::resize(&mut image, 3, 3, ResizeMode::Fill).unwrap();
    assert_eq!((image.width, image.height), (3, 3));
    assert_eq!(image.bytes, vec![0, 0, 200, 255, 10, 5, 200, 254, 20, 10, 200, 253, 40, 0, 170, 255, 50, 5, 170, 254, 60, 10, 170, 253, 80, 0, 140, 255, 90, 5, 140, 254, 100, 10, 140, 253]);
}

#[test]
fn resize_exact_of_an_image_without_pixels_fails() {
    let mut image = Image::blank(0, 0);
    assert!(matches!(editor::resize(&mut image, 2, 2, ResizeMode::Exact), Err(RasterError::PixelOutOfBounds(0, 0))));
    assert_eq!((image.width, image.height), (0, 0));
    editor::resize(&mut image, 0, 2, ResizeMode::Exact).unwrap();
    assert_eq!((image.width, image.height), (0, 2));
}

#[test]
fn resize_of_an_image_without_pixels_with_its_aspect_ratio_fails() {
    for mode in [ResizeMode::ExactWidth, ResizeMode::ExactHeight, ResizeMode::Fit, ResizeMode::Fill] {
        let mut image = Image::blank(0, 4);
        assert!(matches!(editor::resize(&mut image, 2, 2, mode), Err(RasterError::PixelOutOfBounds(0, 0))));
        assert!(matches!(editor::resize(&mut image, 0, 0, mode), Err(RasterError::PixelOutOfBounds(0, 0))));
        assert_eq!((image.width, image.height), (0, 4));
    }
}
