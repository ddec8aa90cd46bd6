use raster::error::RasterError;
use raster::{Color, Image};

#[test]
fn blank_image_is_opaque_black() {
    let image = Image::blank(2, 2);
    assert_eq!(image.width, 2);
    assert_eq!(image.height, 2);
    assert_eq!(image.bytes, vec![0, 0, 0, 255, 0, 0, 0, 255, 0, 0, 0, 255, 0, 0, 0, 255]);
}

#[test]
fn blank_image_without_pixels() {
    let image = Image::blank(0, 5);
    assert_eq!(image.width, 0);
    assert_eq!(image.height, 5);
    assert!(image.bytes.is_empty());
    let image = Image::blank(3, 0);
    assert!(image.bytes.is_empty());
}

#[test]
fn set_pixel_then_get_pixel() {
    let mut image = Image::blank(2, 2);
    image.set_pixel(0, 0, &Color::rgba(255, 0, 0, 255)).unwrap();
    assert_eq!(image.get_pixel(0, 0).unwrap(), Color { r: 255, g: 0, b: 0, a: 255 });
    assert_eq!(image.get_pixel(1, 0).unwrap(), Color { r: 0, g: 0, b: 0, a: 255 });
    assert_eq!(image.get_pixel(0, 1).unwrap(), Color { r: 0, g: 0, b: 0, a: 255 });
    assert_eq!(image.get_pixel(1, 1).unwrap(), Color { r: 0, g: 0, b: 0, a: 255 });
}

#[test]
fn set_pixel_reads_back_everywhere() {
    let mut image = Image::blank(4, 3);
    for y in 0..3 {
        for x in 0..4 {
            let color = Color::rgba((10 * x + y) as u8, (20 * x) as u8, (30 * y) as u8, (x + y) as u8);
            image.set_pixel(x, y, &color).unwrap();
            assert_eq!(image.get_pixel(x, y).unwrap(), color);
        }
    }
    for y in 0..3 {
        for x in 0..4 {
            let color = Color::rgba((10 * x + y) as u8, (20 * x) as u8, (30 * y) as u8, (x + y) as u8);
            assert_eq!(image.get_pixel(x, y).unwrap(), color);
        }
    }
}

#[test]
fn set_pixel_writes_four_bytes_at_the_place_of_the_pixel() {
    let mut image = Image::blank(2, 2);
    image.set_pixel(1, 1, &Color::rgba(1, 2, 3, 4)).unwrap();
    assert_eq!(image.bytes, vec![0, 0, 0, 255, 0, 0, 0, 255, 0, 0, 0, 255, 1, 2, 3, 4]);
}

#[test]
fn set_pixel_right_of_or_below_the_image_fails() {
    let mut image = Image::blank(3, 2);
    assert!(matches!(image.set_pixel(3, 0, &Color::red()), Err(RasterError::PixelOutOfBounds(3, 0))));
    assert!(matches!(image.set_pixel(0, 2, &Color::red()), Err(RasterError::PixelOutOfBounds(0, 2))));
    assert!(matches!(image.set_pixel(7, -1, &Color::red()), Err(RasterError::PixelOutOfBounds(7, -1))));
    assert!(matches!(image.set_pixel(-1, 9, &Color::red()), Err(RasterError::PixelOutOfBounds(-1, 9))));
    assert_eq!(image.bytes, Image::blank(3, 2).bytes);
}

#[test]
fn set_pixel_before_the_buffer_fails_with_the_start_index() {
    let mut image = Image::blank(3, 2);
    assert!(matches!(image.set_pixel(-1, 0, &Color::red()), Err(RasterError::InvalidStartIndex(-4))));
    assert!(matches!(image.set_pixel(0, -1, &Color::red()), Err(RasterError::InvalidStartIndex(-12))));
    assert!(matches!(image.set_pixel(2, -2, &Color::red()), Err(RasterError::InvalidStartIndex(-16))));
    assert!(matches!(
        image.set_pixel(0, i32::MIN, &Color::red()),
        Err(RasterError::InvalidStartIndex(i32::MIN))
    ));
    assert_eq!(image.bytes, Image::blank(3, 2).bytes);
}

#[test]
fn set_pixel_left_of_a_later_row_lands_in_the_row_before() {
    let mut image = Image::blank(3, 2);
    image.set_pixel(-1, 1, &Color::red()).unwrap();
    assert_eq!(image.get_pixel(2, 0).unwrap(), Color::red());
}

#[test]
fn get_pixel_outside_of_the_buffer_fails() {
    let image = Image::blank(3, 2);
    assert!(matches!(image.get_pixel(0, 2), Err(RasterError::PixelOutOfBounds(0, 2))));
    assert!(matches!(image.get_pixel(3, 1), Err(RasterError::PixelOutOfBounds(3, 1))));
    assert!(matches!(image.get_pixel(-1, 0), Err(RasterError::PixelOutOfBounds(-1, 0))));
    assert!(matches!(image.get_pixel(0, -1), Err(RasterError::PixelOutOfBounds(0, -1))));
    assert!(matches!(image.get_pixel(i32::MAX, i32::MAX), Err(RasterError::PixelOutOfBounds(i32::MAX, i32::MAX))));
    assert!(matches!(image.get_pixel(i32::MIN, i32::MIN), Err(RasterError::PixelOutOfBounds(i32::MIN, i32::MIN))));
}

#[test]
fn get_pixel_right_of_a_row_reads_the_next_row() {
    let mut image = Image::blank(3, 2);
    image.set_pixel(0, 1, &Color::blue()).unwrap();
    assert_eq!(image.get_pixel(3, 0).unwrap(), Color::blue());
}

#[test]
fn get_pixel_goes_by_the_buffer() {
    let image = Image { width: 2, height: 2, bytes: vec![1, 2, 3, 4, 5, 6, 7] };
    assert_eq!(image.get_pixel(0, 0).unwrap(), Color::rgba(1, 2, 3, 4));
    assert!(matches!(image.get_pixel(1, 0), Err(RasterError::PixelOutOfBounds(1, 0))));
}

#[test]
fn check_pixel_accepts_the_border_lines() {
    let image = Image::blank(2, 2);
    assert_eq!(image.check_pixel(0, 0), true);
    assert_eq!(image.check_pixel(3, 3), false);
    assert_eq!(image.check_pixel(2, 2), true);
    assert_eq!(image.check_pixel(2, 0), true);
    assert_eq!(image.check_pixel(0, 2), true);
    assert_eq!(image.check_pixel(3, 0), false);
    assert_eq!(image.check_pixel(0, 3), false);
    assert_eq!(image.check_pixel(-1, 0), false);
    assert_eq!(image.check_pixel(0, -1), false);
}

#[test]
fn clone_is_a_deep_copy() {
    let mut image = Image::blank(2, 1);
    let copy = image.clone();
    image.set_pixel(0, 0, &Color::white()).unwrap();
    assert_eq!(copy.bytes, vec![0, 0, 0, 255, 0, 0, 0, 255]);
    assert_eq!(copy.width, 2);
    assert_eq!(copy.height, 1);
}

#[test]
fn histogram_counts_each_channel() {
    let mut image = Image::blank(2, 2);
    image.set_pixel(0, 0, &Color::rgba(10, 20, 30, 40)).unwrap();
    image.set_pixel(1, 0, &Color::rgba(10, 21, 30, 255)).unwrap();
    image.set_pixel(0, 1, &Color::rgba(11, 20, 30, 255)).unwrap();
    let (r_bin, g_bin, b_bin, a_bin) = image.histogram().unwrap();
    assert_eq!(r_bin.len(), 3);
    assert_eq!(r_bin.get(&10), Some(&2));
    assert_eq!(r_bin.get(&11), Some(&1));
    assert_eq!(r_bin.get(&0), Some(&1));
    assert_eq!(r_bin.get(&5), None);
    assert_eq!(g_bin.len(), 3);
    assert_eq!(g_bin.get(&20), Some(&2));
    assert_eq!(g_bin.get(&21), Some(&1));
    assert_eq!(g_bin.get(&0), Some(&1));
    assert_eq!(b_bin.len(), 2);
    assert_eq!(b_bin.get(&30), Some(&3));
    assert_eq!(b_bin.get(&0), Some(&1));
    assert_eq!(a_bin.len(), 2);
    assert_eq!(a_bin.get(&40), Some(&1));
    assert_eq!(a_bin.get(&255), Some(&3));
}

#[test]
fn histogram_of_an_image_without_pixels_is_empty() {
    let (r_bin, g_bin, b_bin, a_bin) = Image::blank(0, 0).histogram().unwrap();
    assert!(r_bin.is_empty() && g_bin.is_empty() && b_bin.is_empty() && a_bin.is_empty());
}
