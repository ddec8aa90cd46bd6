use raster::blend;
use raster::{editor, BlendMode, Color, Image, PositionMode};

/// An opaque 4 x 3 image.
fn base() -> Image {
    let mut image = Image::blank(4, 3);
    for y in 0..3 {
        for x in 0..4 {
            image.set_pixel(x, y, &Color::rgba((10 * x + 40 * y) as u8, (5 * x) as u8, (200 - 30 * y) as u8, 255)).unwrap();
        }
    }
    image
}

/// A 2 x 2 image whose second column is translucent.
fn top() -> Image {
    let mut image = Image::blank(2, 2);
    for y in 0..2 {
        for x in 0..2 {
            image.set_pixel(x, y, &Color::rgba((255 - 20 * x) as u8, (100 + 50 * y) as u8, 9, (255 - 100 * x) as u8)).unwrap();
        }
    }
    image
}

#[test]
fn normal_blends_the_part_that_is_named() {
    // The second row of the top image onto the third row of the base.
    let canvas = blend::normal(&base(), &top(), 1, 2, 0, 2, 2, 1, 10_000).unwrap();
    assert_eq!((canvas.width, canvas.height), (4, 3));
    for y in 0..3 {
        for x in 0..4 {
            if y == 2 && x >= 2 {
                continue;
            }
            assert_eq!(canvas.get_pixel(x, y).unwrap(), base().get_pixel(x, y).unwrap());
        }
    }
    // An opaque top pixel replaces the base, a translucent one is mixed in:
    // (155 * 235 + 100 * 110) / 255 = 185, and so on.
    assert_eq!(canvas.get_pixel(2, 2).unwrap(), Color::rgba(255, 150, 9, 255));
    assert_eq!(canvas.get_pixel(3, 2).unwrap(), Color::rgba(185, 97, 60, 255));
}

#[test]
fn an_empty_part_changes_nothing() {
    let canvas = blend::screen(&base(), &top(), 1, 1, 0, 2, 0, 0, 10_000).unwrap();
    assert_eq!(canvas.bytes, base().bytes);
    let canvas = blend::overlay(&base(), &top(), 0, 2, 2, 2, 0, 0, 10_000).unwrap();
    assert_eq!(canvas.bytes, base().bytes);
}

#[test]
fn the_modes_by_name_are_the_modes_of_blend() {
    let whole = |mode: BlendMode| editor::blend(&base(), &top(), mode, 7_000, PositionMode::TopLeft, 1, 1).unwrap().bytes;
    assert_eq!(blend::normal(&base(), &top(), 0, 2, 0, 2, 1, 1, 7_000).unwrap().bytes, whole(BlendMode::Normal));
    assert_eq!(blend::difference(&base(), &top(), 0, 2, 0, 2, 1, 1, 7_000).unwrap().bytes, whole(BlendMode::Difference));
    assert_eq!(blend::multiply(&base(), &top(), 0, 2, 0, 2, 1, 1, 7_000).unwrap().bytes, whole(BlendMode::Multiply));
    assert_eq!(blend::overlay(&base(), &top(), 0, 2, 0, 2, 1, 1, 7_000).unwrap().bytes, whole(BlendMode::Overlay));
    assert_eq!(blend::screen(&base(), &top(), 0, 2, 0, 2, 1, 1, 7_000).unwrap().bytes, whole(BlendMode::Screen));
    assert_eq!(
        blend::compose(&base(), &top(), BlendMode::Screen, 0, 2, 0, 2, 1, 1, 7_000).unwrap().bytes,
        whole(BlendMode::Screen)
    );
}

#[test]
fn blend_functions_exact_values() {
    let mut one = Image::blank(1, 1);
    one.set_pixel(0, 0, &Color::rgba(100, 150, 200, 255)).unwrap();
    let mut other = Image::blank(1, 1);
    other.set_pixel(0, 0, &Color::rgba(50, 100, 250, 255)).unwrap();
    let pixel = |image: Image| image.get_pixel(0, 0).unwrap();
    assert_eq!(pixel(blend::normal(&one, &other, 0, 1, 0, 1, 0, 0, 10_000).unwrap()), Color::rgba(50, 100, 250, 255));
    // |100 - 50|, |150 - 100|, |200 - 250|
    assert_eq!(pixel(blend::difference(&one, &other, 0, 1, 0, 1, 0, 0, 10_000).unwrap()), Color::rgba(50, 50, 50, 255));
    // 100 * 50 / 255, 150 * 100 / 255, 200 * 250 / 255
    assert_eq!(pixel(blend::multiply(&one, &other, 0, 1, 0, 1, 0, 0, 10_000).unwrap()), Color::rgba(19, 58, 196, 255));
    // 2 * 100 * 50 / 255, then 255 - 2 * 105 * 155 / 255 and 255 - 2 * 55 * 5 / 255
    assert_eq!(pixel(blend::overlay(&one, &other, 0, 1, 0, 1, 0, 0, 10_000).unwrap()), Color::rgba(39, 127, 252, 255));
    // 255 - 155 * 205 / 255, 255 - 105 * 155 / 255, 255 - 55 * 5 / 255
    assert_eq!(pixel(blend::screen(&one, &other, 0, 1, 0, 1, 0, 0, 10_000).unwrap()), Color::rgba(130, 191, 253, 255));
    // Half of each.
    assert_eq!(pixel(blend::normal(&one, &other, 0, 1, 0, 1, 0, 0, 5_000).unwrap()), Color::rgba(75, 125, 225, 255));
}
