use raster::endec;
use raster::error::RasterError;
use raster::{Color, Image, ImageFormat};

/// A small image with a red pixel.
fn sample() -> Image {
    let mut image = Image::blank(3, 2);
    image.set_pixel(1, 0, &Color::red()).unwrap();
    image
}

#[test]
fn unsupported_format() {
    let fail = {
        match ImageFormat::from_extension("txt") {
            Ok(_) => false,
            Err(e) => match e {
                RasterError::UnsupportedFormat(_) => true,
                _ => false,
            },
        }
    };
    assert!(fail);
}

#[test]
fn read_gif_format() {
    let data = endec::encode_gif(&sample()).unwrap();
    let ok = {
        if let Ok(_) = endec::decode_gif(&data) {
            true
        } else {
            false
        }
    };
    assert!(ok);
}

#[test]
fn read_png_format() {
    let data = endec::encode_png(&sample()).unwrap();
    let ok = {
        if let Ok(_) = endec::decode_png(&data) {
            true
        } else {
            false
        }
    };
    assert!(ok);
}

#[test]
fn read_gif_format_fail() {
    assert!({
        if let Err(e) = endec::decode_gif(b"This is not a gif.\n") {
            if let RasterError::Decode(format, _) = e {
                assert!({
                    if let ImageFormat::Gif = format {
                        true
                    } else {
                        false
                    }
                });
            }
            true
        } else {
            false
        }
    });
}

#[test]
fn read_png_format_fail() {
    assert!({
        if let Err(e) = endec::decode_png(b"This is not a png.\n") {
            if let RasterError::Decode(format, _) = e {
                assert!({
                    if let ImageFormat::Png = format {
                        true
                    } else {
                        false
                    }
                });
            }
            true
        } else {
            false
        }
    });
}
