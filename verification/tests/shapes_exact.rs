use f429_disco::display::Display;
use f429_disco::hw::ili9341::{Ili9341Display, Ili9341Driver};
use f429_disco::shapes::PixelSink;
use f429_disco::{
    draw_rectangle_outline, draw_rectangle_outline_on_layer, draw_triangle_outline,
    draw_triangle_outline_on_layer, init_display, DisplayConfig, Layer, Orientation, PixelFormat, Point,
    Rect, Rgb565, Triangle,
};

const INK: Rgb565 = Rgb565(0xF81F);

fn display(w: u16, h: u16) -> Display {
    init_display(DisplayConfig {
        width: w,
        height: h,
        orientation: Orientation::Portrait,
        pixel_format: PixelFormat::Rgb565,
    })
    .unwrap()
}

fn inked(d: &Display, layer: Layer) -> Vec<(u16, u16)> {
    let (w, h) = d.size();
    let mut out = Vec::new();
    for x in 0..w {
        for y in 0..h {
            if d.get_pixel_from_layer(layer, x, y) == Some(INK) {
                out.push((x, y));
            }
        }
    }
    out
}

fn in_outline(r: Rect, t: i64, x: i64, y: i64) -> bool {
    let dx = x - r.x as i64;
    let dy = y - r.y as i64;
    let (w, h) = (r.width as i64, r.height as i64);
    0 <= dx && dx < w && 0 <= dy && dy < h && (dx < t || dx >= w - t || dy < t || dy >= h - t)
}

fn check_rect(dw: u16, dh: u16, r: Rect, t: u16) -> usize {
    let mut d = display(dw, dh);
    assert_eq!(draw_rectangle_outline(&mut d, r, INK, t), Ok(()));
    let mut n = 0;
    for y in 0..dh {
        for x in 0..dw {
            let want = in_outline(r, t as i64, x as i64, y as i64);
            assert_eq!(d.get_pixel(x, y) == Some(INK), want, "pixel ({x}, {y}) of {r:?} at {t}");
            assert_eq!(d.get_pixel_from_layer(Layer::Layer2, x, y), Some(Rgb565(0)));
            if want {
                n += 1;
            }
        }
    }
    n
}

#[test]
fn rectangle_outlines_pixel_by_pixel() {
    assert_eq!(check_rect(10, 10, Rect { x: 1, y: 1, width: 8, height: 8 }, 2), 48);
    assert_eq!(check_rect(10, 10, Rect { x: -5, y: 3, width: 8, height: 4 }, 2), 12);
    assert_eq!(check_rect(10, 10, Rect { x: 2, y: 2, width: 6, height: 6 }, 3), 36);
    assert_eq!(check_rect(5, 3, Rect { x: 0, y: 0, width: 5, height: 3 }, 1), 12);
    assert_eq!(check_rect(10, 10, Rect { x: 3, y: 3, width: 1, height: 5 }, 1), 5);
    for t in 0..9 {
        for w in 0..7 {
            for h in 0..7 {
                check_rect(8, 7, Rect { x: 1, y: -2, width: w, height: h }, t);
                check_rect(8, 7, Rect { x: 5, y: 4, width: w, height: h }, t);
            }
        }
    }
}

#[test]
fn thickness_equal_to_height_fills_the_rectangle() {
    assert_eq!(check_rect(10, 10, Rect { x: 1, y: 1, width: 6, height: 3 }, 3), 18);
    assert_eq!(check_rect(10, 10, Rect { x: 1, y: 1, width: 6, height: 3 }, 2), 18);
    assert_eq!(check_rect(10, 10, Rect { x: 1, y: 1, width: 6, height: 5 }, 2), 28);
}

#[test]
fn huge_thickness_and_far_rectangles_do_not_panic() {
    assert_eq!(check_rect(6, 6, Rect { x: 1, y: 1, width: 4, height: 4 }, 65535), 16);
    assert_eq!(check_rect(6, 6, Rect { x: 1, y: 1, width: 4, height: 4 }, 32768), 16);
    assert_eq!(check_rect(6, 6, Rect { x: -3, y: -3, width: 65535, height: 65535 }, 40000), 36);
    assert_eq!(check_rect(6, 6, Rect { x: i32::MAX, y: i32::MAX, width: 65535, height: 65535 }, 7), 0);
    assert_eq!(check_rect(6, 6, Rect { x: i32::MIN, y: i32::MIN, width: 65535, height: 65535 }, 7), 0);
    assert_eq!(check_rect(6, 6, Rect { x: -65534, y: 2, width: 65535, height: 2 }, 1), 2);
}

#[test]
fn a_rectangle_around_the_display_draws_nothing_inside() {
    assert_eq!(check_rect(10, 10, Rect { x: -5, y: -5, width: 20, height: 20 }, 1), 0);
}

#[test]
fn drawing_a_rectangle_twice_is_drawing_it_once() {
    let mut once = display(12, 9);
    once.set_pixel(3, 3, Rgb565(7));
    let r = Rect { x: -2, y: 1, width: 9, height: 7 };
    draw_rectangle_outline(&mut once, r, INK, 2).unwrap();
    let mut twice = once.clone();
    draw_rectangle_outline(&mut twice, r, INK, 2).unwrap();
    assert_eq!(once.to_ppm(), twice.to_ppm());
    assert_eq!(once.get_pixel(3, 3), Some(Rgb565(7)));
}

#[test]
fn drawing_a_triangle_twice_is_drawing_it_once() {
    let mut once = display(12, 9);
    let tri = Triangle { a: Point { x: 1, y: 1 }, b: Point { x: 14, y: 4 }, c: Point { x: 3, y: 8 } };
    draw_triangle_outline(&mut once, tri, INK, 3).unwrap();
    let mut twice = once.clone();
    draw_triangle_outline(&mut twice, tri, INK, 3).unwrap();
    assert_eq!(once.to_ppm(), twice.to_ppm());
}

#[test]
fn a_thin_triangle_is_its_three_lines() {
    let mut d = display(8, 6);
    let tri = Triangle { a: Point { x: 0, y: 0 }, b: Point { x: 5, y: 2 }, c: Point { x: 1, y: 4 } };
    assert_eq!(draw_triangle_outline(&mut d, tri, INK, 1), Ok(()));
    assert_eq!(
        inked(&d, Layer::Layer1),
        vec![
            (0, 0), (0, 1), (0, 2), (1, 0), (1, 3), (1, 4), (2, 1), (2, 4), (3, 1), (3, 3), (4, 2),
            (4, 3), (5, 2)
        ]
    );
}

#[test]
fn a_steep_line_steps_along_y() {
    let mut d = display(8, 9);
    let tri = Triangle { a: Point { x: 1, y: 1 }, b: Point { x: 3, y: 7 }, c: Point { x: 1, y: 1 } };
    draw_triangle_outline(&mut d, tri, INK, 1).unwrap();
    assert_eq!(inked(&d, Layer::Layer1), vec![(1, 1), (1, 2), (2, 3), (2, 4), (2, 5), (3, 6), (3, 7)]);
}

#[test]
fn thick_strokes_are_squares_along_the_line() {
    let tri = Triangle { a: Point { x: 0, y: 0 }, b: Point { x: 5, y: 2 }, c: Point { x: 1, y: 4 } };
    let mut d = display(8, 6);
    draw_triangle_outline(&mut d, tri, INK, 2).unwrap();
    assert_eq!(inked(&d, Layer::Layer1).len(), 24);
    let mut d = display(8, 6);
    draw_triangle_outline(&mut d, tri, INK, 3).unwrap();
    assert_eq!(inked(&d, Layer::Layer1).len(), 36);
}

#[test]
fn a_single_stamp_reaches_half_a_thickness_up_and_left() {
    let mut d = display(9, 9);
    let tri = Triangle { a: Point { x: 4, y: 4 }, b: Point { x: 4, y: 4 }, c: Point { x: 4, y: 5 } };
    draw_triangle_outline(&mut d, tri, INK, 4).unwrap();
    // squares of side 4 from (2, 2) and from (2, 3)
    let got = inked(&d, Layer::Layer1);
    assert_eq!(got.len(), 4 * 5);
    assert_eq!(got.first(), Some(&(2, 2)));
    assert_eq!(got.last(), Some(&(5, 6)));
}

#[test]
fn far_corners_are_clipped_without_panic() {
    let mut d = display(10, 10);
    let tri = Triangle {
        a: Point { x: -3000, y: 5 },
        b: Point { x: 3000, y: 5 },
        c: Point { x: 0, y: -4000 },
    };
    draw_triangle_outline(&mut d, tri, INK, 1).unwrap();
    let got = inked(&d, Layer::Layer1);
    for x in 0..10 {
        assert!(got.contains(&(x, 5)));
    }
    let mut d = display(10, 10);
    let tri = Triangle {
        a: Point { x: 100000, y: 100000 },
        b: Point { x: 100500, y: 100000 },
        c: Point { x: 100000, y: 100700 },
    };
    draw_triangle_outline(&mut d, tri, INK, 65535).unwrap();
    assert_eq!(inked(&d, Layer::Layer1).len(), 0);
}

#[test]
fn two_equal_corners_still_draw() {
    let mut d = display(6, 6);
    let p = Point { x: 1, y: 1 };
    let tri = Triangle { a: p, b: p, c: Point { x: 4, y: 1 } };
    draw_triangle_outline(&mut d, tri, INK, 1).unwrap();
    assert_eq!(inked(&d, Layer::Layer1), vec![(1, 1), (2, 1), (3, 1), (4, 1)]);
}

#[test]
fn rectangle_on_the_second_layer_leaves_the_first() {
    let mut d = display(8, 6);
    let r = Rect { x: 1, y: 1, width: 6, height: 4 };
    assert_eq!(draw_rectangle_outline_on_layer(&mut d, r, INK, 1, Layer::Layer2), Ok(()));
    assert_eq!(inked(&d, Layer::Layer1).len(), 0);
    assert_eq!(inked(&d, Layer::Layer2).len(), 16);
    assert_eq!(draw_rectangle_outline_on_layer(&mut d, r, INK, 1, Layer::Layer1), Ok(()));
    assert_eq!(inked(&d, Layer::Layer1), inked(&d, Layer::Layer2));
}

#[test]
fn triangle_on_a_layer_is_the_triangle_of_the_plain_call() {
    let tri = Triangle { a: Point { x: 0, y: 0 }, b: Point { x: 5, y: 2 }, c: Point { x: 1, y: 4 } };
    let mut plain = display(8, 6);
    draw_triangle_outline(&mut plain, tri, INK, 2).unwrap();
    let mut layered = display(8, 6);
    assert_eq!(draw_triangle_outline_on_layer(&mut layered, tri, INK, 2, Layer::Layer2), Ok(()));
    assert_eq!(inked(&layered, Layer::Layer1).len(), 0);
    assert_eq!(inked(&layered, Layer::Layer2), inked(&plain, Layer::Layer1));
}

struct Recorder {
    writes: Vec<(u16, u16, u16)>,
    fail: bool,
}

impl Ili9341Driver for Recorder {
    type Error = ();

    fn set_pixel(&mut self, x: u16, y: u16, color: Rgb565) -> Result<(), ()> {
        self.writes.push((x, y, color.0));
        if self.fail {
            Err(())
        } else {
            Ok(())
        }
    }
}

#[test]
fn a_panel_gets_the_writes_of_an_outline() {
    let mut panel = Ili9341Display::new(Recorder { writes: Vec::new(), fail: false }, 8, 6);
    assert_eq!(panel.size(), (8, 6));
    draw_rectangle_outline(&mut panel, Rect { x: 1, y: 1, width: 6, height: 4 }, INK, 1).unwrap();
    let mut seen: Vec<(u16, u16)> = panel.drv.writes.iter().map(|w| (w.0, w.1)).collect();
    assert!(panel.drv.writes.iter().all(|w| w.2 == INK.0));
    seen.sort();
    seen.dedup();
    assert_eq!(seen.len(), 16);
    assert!(seen.iter().all(|p| in_outline(Rect { x: 1, y: 1, width: 6, height: 4 }, 1, p.0 as i64, p.1 as i64)));
}

#[test]
fn a_panel_that_fails_is_written_to_all_the_same() {
    let mut panel = Ili9341Display::new(Recorder { writes: Vec::new(), fail: true }, 4, 4);
    draw_rectangle_outline(&mut panel, Rect { x: 2, y: 2, width: 9, height: 9 }, INK, 1).unwrap();
    assert_eq!(panel.drv.writes, vec![(2, 2, INK.0), (3, 2, INK.0), (2, 3, INK.0)]);
}

#[test]
fn the_demonstration_is_a_thin_white_rectangle() {
    let mut d = display(240, 240);
    f429_disco::demo::f429_rect(&mut d);
    let white = Rgb565(0xFFFF);
    let r = Rect { x: 40, y: 60, width: 160, height: 80 };
    let mut n = 0;
    for y in 0..240 {
        for x in 0..240 {
            let want = in_outline(r, 1, x as i64, y as i64);
            assert_eq!(d.get_pixel(x, y) == Some(white), want);
            if want {
                n += 1;
            }
        }
    }
    assert_eq!(n, 2 * (160 + 80) - 4);
}
