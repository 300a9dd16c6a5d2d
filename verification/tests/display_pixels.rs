use f429_disco::display::Display;
use f429_disco::shapes::PixelSink;
use f429_disco::{init_display, DisplayConfig, Error, Layer, Orientation, PixelFormat, Rgb565};

fn display(w: u16, h: u16) -> Display {
    init_display(DisplayConfig {
        width: w,
        height: h,
        orientation: Orientation::Landscape,
        pixel_format: PixelFormat::Rgb565,
    })
    .unwrap()
}

#[test]
fn init_rejects_zero_height_and_both_zero() {
    let cfg = DisplayConfig { width: 240, height: 0, orientation: Orientation::Portrait, pixel_format: PixelFormat::Rgb565 };
    assert_eq!(init_display(cfg).unwrap_err(), Error::InvalidDimensions);
    let cfg = DisplayConfig { width: 0, height: 0, orientation: Orientation::Portrait, pixel_format: PixelFormat::Rgb565 };
    assert_eq!(init_display(cfg).unwrap_err(), Error::InvalidDimensions);
}

#[test]
fn init_keeps_the_configuration_and_starts_black() {
    let d = init_display(DisplayConfig {
        width: 7,
        height: 5,
        orientation: Orientation::InvertedLandscape,
        pixel_format: PixelFormat::Rgb565,
    })
    .unwrap();
    assert_eq!(d.size(), (7, 5));
    assert_eq!(d.orientation(), Orientation::InvertedLandscape);
    assert_eq!(d.pixel_format(), PixelFormat::Rgb565);
    for y in 0..5 {
        for x in 0..7 {
            assert_eq!(d.get_pixel_from_layer(Layer::Layer1, x, y), Some(Rgb565(0)));
            assert_eq!(d.get_pixel_from_layer(Layer::Layer2, x, y), Some(Rgb565(0)));
        }
    }
}

#[test]
fn init_takes_the_largest_width() {
    let d = display(65535, 1);
    assert_eq!(d.size(), (65535, 1));
    assert_eq!(d.get_pixel(65534, 0), Some(Rgb565(0)));
    assert_eq!(d.get_pixel(65534, 1), None);
}

#[test]
fn error_messages() {
    assert_eq!(Error::InvalidDimensions.message(), "invalid dimensions: width and height must be > 0");
    assert_eq!(Error::UnsupportedPixelFormat.message(), "unsupported pixel format");
}

#[test]
fn packing_keeps_the_high_bits() {
    assert_eq!(Rgb565::from_rgb888(255, 0, 0), Rgb565(0xF800));
    assert_eq!(Rgb565::from_rgb888(0, 255, 0), Rgb565(0x07E0));
    assert_eq!(Rgb565::from_rgb888(0, 0, 255), Rgb565(0x001F));
    assert_eq!(Rgb565::from_rgb888(0xAA, 0x55, 0x00), Rgb565(0xAAA0));
    assert_eq!(Rgb565::from_rgb888(7, 3, 7), Rgb565(0));
    assert_eq!(Rgb565::from_rgb888(8, 4, 8), Rgb565(0x0821));
    assert_eq!(Rgb565::black(), Rgb565(0x0000));
    assert_eq!(Rgb565::white(), Rgb565(0xFFFF));
    assert_eq!(Rgb565::from_rgb888(255, 255, 255), Rgb565::white());
}

#[test]
fn a_written_pixel_is_read_back() {
    let mut d = display(6, 4);
    let c = Rgb565(0x1234);
    for y in 0..4u16 {
        for x in 0..6u16 {
            let mut e = d.clone();
            e.set_pixel(x, y, c);
            assert_eq!(e.get_pixel(x, y), Some(c));
            for py in 0..4u16 {
                for px in 0..6u16 {
                    if (px, py) != (x, y) {
                        assert_eq!(e.get_pixel(px, py), Some(Rgb565(0)));
                    }
                    assert_eq!(e.get_pixel_from_layer(Layer::Layer2, px, py), Some(Rgb565(0)));
                }
            }
        }
    }
    d.set_pixel(5, 3, c);
    assert_eq!(d.get_pixel(5, 3), Some(c));
}

#[test]
fn reads_outside_the_display_are_absent() {
    let d = display(6, 4);
    assert_eq!(d.get_pixel(6, 0), None);
    assert_eq!(d.get_pixel(0, 4), None);
    assert_eq!(d.get_pixel(6, 4), None);
    assert_eq!(d.get_pixel(65535, 65535), None);
    assert_eq!(d.get_pixel_from_layer(Layer::Layer2, 6, 3), None);
}

#[test]
fn writes_outside_the_display_are_ignored() {
    let mut d = display(6, 4);
    let c = Rgb565(0xFFFF);
    d.set_pixel(7, 0, c);
    d.set_pixel(6, 3, c);
    d.set_pixel(0, 4, c);
    d.set_pixel(65535, 65535, c);
    d.set_pixel_unchecked_in_layer(Layer::Layer2, 6, 0, c);
    for y in 0..4 {
        for x in 0..6 {
            assert_eq!(d.get_pixel(x, y), Some(Rgb565(0)));
            assert_eq!(d.get_pixel_from_layer(Layer::Layer2, x, y), Some(Rgb565(0)));
        }
    }
}

#[test]
fn clear_layer_fills_one_layer_only() {
    let mut d = display(3, 2);
    let c = Rgb565(0x07E0);
    d.clear_layer(Layer::Layer2, c);
    for y in 0..2 {
        for x in 0..3 {
            assert_eq!(d.get_pixel_from_layer(Layer::Layer1, x, y), Some(Rgb565(0)));
            assert_eq!(d.get_pixel_from_layer(Layer::Layer2, x, y), Some(c));
        }
    }
    d.clear_layer(Layer::Layer1, Rgb565(0x001F));
    assert_eq!(d.get_pixel(2, 1), Some(Rgb565(0x001F)));
    assert_eq!(d.get_pixel_from_layer(Layer::Layer2, 2, 1), Some(c));
}

#[test]
fn clear_fills_both_layers() {
    let mut d = display(3, 2);
    let c = Rgb565(0xABCD);
    d.set_pixel(1, 1, Rgb565(1));
    assert_eq!(d.clear(c), Ok(()));
    for y in 0..2 {
        for x in 0..3 {
            assert_eq!(d.get_pixel_from_layer(Layer::Layer1, x, y), Some(c));
            assert_eq!(d.get_pixel_from_layer(Layer::Layer2, x, y), Some(c));
        }
    }
}

#[test]
fn layers_are_written_apart() {
    let mut d = display(3, 2);
    d.set_pixel_unchecked_in_layer(Layer::Layer2, 2, 1, Rgb565(9));
    assert_eq!(d.get_pixel(2, 1), Some(Rgb565(0)));
    assert_eq!(d.get_pixel_from_layer(Layer::Layer2, 2, 1), Some(Rgb565(9)));
    d.set_pixel_unchecked(0, 1, Rgb565(5));
    assert_eq!(d.get_pixel_from_layer(Layer::Layer1, 0, 1), Some(Rgb565(5)));
    assert_eq!(d.get_pixel_from_layer(Layer::Layer2, 0, 1), Some(Rgb565(0)));
}

#[test]
fn a_clone_is_a_separate_display() {
    let mut d = display(2, 2);
    d.set_pixel(1, 0, Rgb565(3));
    let mut e = d.clone();
    assert_eq!(e.size(), (2, 2));
    assert_eq!(e.get_pixel(1, 0), Some(Rgb565(3)));
    e.set_pixel(0, 0, Rgb565(4));
    assert_eq!(d.get_pixel(0, 0), Some(Rgb565(0)));
}

#[test]
fn pixmap_of_a_small_display() {
    let mut d = display(2, 2);
    d.set_pixel(0, 0, Rgb565(0xFFFF));
    d.set_pixel(1, 0, Rgb565(0xF800));
    d.set_pixel(0, 1, Rgb565(0x07E0));
    d.set_pixel(1, 1, Rgb565::from_rgb888(0xAA, 0x55, 0x00));
    d.clear_layer(Layer::Layer2, Rgb565(0x1111));
    let mut expected = b"P6\n2 2\n255\n".to_vec();
    expected.extend_from_slice(&[255, 255, 255]);
    expected.extend_from_slice(&[255, 0, 0]);
    expected.extend_from_slice(&[0, 255, 0]);
    // 0xAAA0: red 21 -> 10101_101, green 21 -> 010101_01, blue 0
    expected.extend_from_slice(&[0xAD, 0x55, 0x00]);
    assert_eq!(d.to_ppm(), expected);
}

#[test]
fn pixmap_header_has_the_size_in_decimal() {
    let d = display(320, 1);
    let ppm = d.to_ppm();
    assert_eq!(&ppm[..13], b"P6\n320 1\n255\n");
    assert_eq!(ppm.len(), 13 + 320 * 3);
    let d = display(10, 105);
    let ppm = d.to_ppm();
    assert_eq!(&ppm[..14], b"P6\n10 105\n255\n");
    assert_eq!(ppm.len(), 14 + 10 * 105 * 3);
    assert!(ppm[14..].iter().all(|b| *b == 0));
    let d = display(65535, 1);
    assert_eq!(&d.to_ppm()[..15], b"P6\n65535 1\n255\n");
}
