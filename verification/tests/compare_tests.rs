use raster::error::RasterError;
use raster::{compare, Color, Image};

/// A 12 x 10 image with a pattern of its own.
fn first() -> Image {
    let mut image = Image::blank(12, 10);
    for y in 0..10 {
        for x in 0..12 {
            let color = Color::rgba(((x * 37 + y * 91) % 256) as u8, ((x * y * 5) % 256) as u8, (255 - x * 20) as u8, 255);
            image.set_pixel(x, y, &color).unwrap();
        }
    }
    image
}

/// Another 12 x 10 image.
fn second() -> Image {
    let mut image = Image::blank(12, 10);
    for y in 0..10 {
        for x in 0..12 {
            let color = Color::rgba(((x * 11 + y * 3) % 256) as u8, (200 - x * y) as u8, (x * 20) as u8, 255);
            image.set_pixel(x, y, &color).unwrap();
        }
    }
    image
}

#[test]
fn an_image_is_equal_to_its_copy() {
    let image = first();
    assert_eq!(compare::equal(&image, &image.clone()).unwrap(), true);
    assert_eq!(compare::equal(&image, &image).unwrap(), true);
    let empty = Image::blank(0, 0);
    assert_eq!(compare::equal(&empty, &empty.clone()).unwrap(), true);
}

#[test]
fn images_of_different_dimensions_are_not_equal() {
    assert_eq!(compare::equal(&Image::blank(2, 3), &Image::blank(3, 2)).unwrap(), false);
    assert_eq!(compare::equal(&Image::blank(2, 3), &Image::blank(2, 4)).unwrap(), false);
    assert_eq!(compare::equal(&Image::blank(2, 3), &Image::blank(1, 3)).unwrap(), false);
    assert_eq!(compare::equal(&Image::blank(0, 3), &Image::blank(0, 4)).unwrap(), false);
    assert_eq!(compare::equal(&Image::blank(2, 3), &Image::blank(2, 3)).unwrap(), true);
}

#[test]
fn equal_compares_red_green_and_blue_but_not_alpha() {
    let image = first();
    for (x, y) in [(0, 0), (11, 9), (5, 4)] {
        let pixel = image.get_pixel(x, y).unwrap();
        let mut other = image.clone();
        other.set_pixel(x, y, &Color::rgba(pixel.r, pixel.g, pixel.b, 3)).unwrap();
        assert_eq!(compare::equal(&image, &other).unwrap(), true);
        other.set_pixel(x, y, &Color::rgba(pixel.r ^ 1, pixel.g, pixel.b, pixel.a)).unwrap();
        assert_eq!(compare::equal(&image, &other).unwrap(), false);
        other.set_pixel(x, y, &Color::rgba(pixel.r, pixel.g ^ 1, pixel.b, pixel.a)).unwrap();
        assert_eq!(compare::equal(&image, &other).unwrap(), false);
        other.set_pixel(x, y, &Color::rgba(pixel.r, pixel.g, pixel.b ^ 1, pixel.a)).unwrap();
        assert_eq!(compare::equal(&image, &other).unwrap(), false);
    }
}

#[test]
fn diff_hash_has_a_bit_for_each_pixel_but_the_last_of_a_row() {
    let hash = compare::diff_hash(&first()).unwrap();
    assert_eq!(hash.len(), 64);
    assert_eq!(hash, vec![0, 0, 0, 0, 1, 1, 0, 0, 0, 1, 0, 1, 0, 0, 1, 0, 1, 1, 0, 0, 1, 1, 1, 0, 0, 0, 1, 0, 0, 0, 0, 1, 1, 1, 0, 0, 0, 0, 1, 1, 0, 0, 0, 0, 1, 0, 1, 0, 0, 1, 1, 0, 1, 1, 0, 1, 0, 0, 0, 1, 1, 1, 0, 0]);
    assert_eq!(compare::diff_hash(&second()).unwrap(), vec![0, 0, 0, 0, 0, 0, 0, 0, 0, 0, 0, 0, 0, 0, 0, 0, 0, 0, 0, 0, 0, 0, 0, 0, 0, 0, 0, 0, 0, 0, 0, 0, 0, 0, 0, 0, 0, 0, 0, 0, 0, 0, 0, 0, 0, 0, 0, 0, 0, 0, 0, 0, 0, 0, 0, 0, 0, 0, 0, 0, 0, 0, 0, 0]);
}

#[test]
fn diff_hash_of_a_falling_and_a_rising_ramp() {
    let mut falling = Image::blank(9, 8);
    let mut rising = Image::blank(9, 8);
    for y in 0..8 {
        for x in 0..9 {
            falling.set_pixel(x, y, &Color::rgb((200 - 20 * x) as u8, 100, 50)).unwrap();
            rising.set_pixel(x, y, &Color::rgb((20 * x) as u8, 100, 50)).unwrap();
        }
    }
    assert_eq!(compare::diff_hash(&falling).unwrap(), vec![1; 64]);
    assert_eq!(compare::diff_hash(&rising).unwrap(), vec![0; 64]);
    assert_eq!(compare::diff_hash(&Image::blank(9, 8)).unwrap(), vec![0; 64]);
    assert_eq!(compare::similar(&falling, &rising).unwrap(), 64);
}

#[test]
fn an_image_is_similar_to_itself() {
    assert_eq!(compare::similar(&first(), &first()).unwrap(), 0);
    assert_eq!(compare::similar(&second(), &second().clone()).unwrap(), 0);
    assert_eq!(compare::similar(&Image::blank(1, 1), &Image::blank(30, 20)).unwrap(), 0);
}

#[test]
fn similar_is_the_same_in_both_directions() {
    assert_eq!(compare::similar(&first(), &second()).unwrap(), 26);
    assert_eq!(compare::similar(&second(), &first()).unwrap(), 26);
}

#[test]
fn similar_fails_on_an_image_without_pixels() {
    assert!(matches!(compare::similar(&Image::blank(0, 0), &first()), Err(RasterError::PixelOutOfBounds(0, 0))));
    assert!(matches!(compare::similar(&first(), &Image::blank(4, 0)), Err(RasterError::PixelOutOfBounds(0, 0))));
    assert!(matches!(compare::diff_hash(&Image::blank(0, 7)), Err(RasterError::PixelOutOfBounds(0, 0))));
}
