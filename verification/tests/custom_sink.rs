use f429_disco::hw::ili9341::{Ili9341Display, Ili9341Driver};
use f429_disco::{draw_rectangle_outline, draw_triangle_outline, Point, Rect, Rgb565, Triangle};

struct Tally {
    writes: Vec<(u16, u16, Rgb565)>,
}

impl Ili9341Driver for Tally {
    type Error = String;

    fn set_pixel(&mut self, x: u16, y: u16, color: Rgb565) -> Result<(), String> {
        self.writes.push((x, y, color));
        Ok(())
    }
}

#[test]
fn any_sink_is_only_written_to_within_its_size() {
    let mut sink = Ili9341Display::new(Tally { writes: Vec::new() }, 7, 5);
    draw_rectangle_outline(&mut sink, Rect { x: -3, y: -3, width: 30, height: 6 }, Rgb565(1), 2).unwrap();
    let tri = Triangle { a: Point { x: -9, y: 2 }, b: Point { x: 20, y: 3 }, c: Point { x: 3, y: 40 } };
    draw_triangle_outline(&mut sink, tri, Rgb565(2), 5).unwrap();
    assert!(!sink.drv.writes.is_empty());
    assert!(sink.drv.writes.iter().all(|w| w.0 < 7 && w.1 < 5));
}

#[test]
fn a_span_is_written_row_by_row() {
    let mut sink = Ili9341Display::new(Tally { writes: Vec::new() }, 4, 4);
    draw_rectangle_outline(&mut sink, Rect { x: 1, y: 1, width: 2, height: 2 }, Rgb565(3), 1).unwrap();
    let at: Vec<(u16, u16)> = sink.drv.writes.iter().map(|w| (w.0, w.1)).collect();
    // the top band, then the bottom band; nothing is left between them for the sides
    assert_eq!(at, vec![(1, 1), (2, 1), (1, 2), (2, 2)]);
    assert!(sink.drv.writes.iter().all(|w| w.2 == Rgb565(3)));
}

#[test]
fn a_sink_without_pixels_is_never_written_to() {
    let mut sink = Ili9341Display::new(Tally { writes: Vec::new() }, 0, 9);
    draw_rectangle_outline(&mut sink, Rect { x: 0, y: 0, width: 4, height: 4 }, Rgb565(3), 1).unwrap();
    let tri = Triangle { a: Point { x: 0, y: 0 }, b: Point { x: 3, y: 3 }, c: Point { x: 0, y: 3 } };
    draw_triangle_outline(&mut sink, tri, Rgb565(2), 2).unwrap();
    assert!(sink.drv.writes.is_empty());
}

fn square(cx: i64, cy: i64, t: i64, w: i64, h: i64, out: &mut Vec<(u16, u16)>) {
    let side = t.max(1);
    let (x, y) = (cx - t / 2, cy - t / 2);
    for yy in y.max(0)..(y + side).min(h) {
        for xx in x.max(0)..(x + side).min(w) {
            out.push((xx as u16, yy as u16));
        }
    }
}

fn stroke(a: (i64, i64), b: (i64, i64), t: i64, w: i64, h: i64, out: &mut Vec<(u16, u16)>) {
    let (mut x, mut y) = a;
    let dx = (b.0 - x).abs();
    let sx = if x < b.0 { 1 } else { -1 };
    let dy = -(b.1 - y).abs();
    let sy = if y < b.1 { 1 } else { -1 };
    let mut err = dx + dy;
    loop {
        square(x, y, t, w, h, out);
        if (x, y) == b {
            break;
        }
        let e2 = 2 * err;
        if e2 >= dy {
            err += dy;
            x += sx;
        }
        if e2 <= dx {
            err += dx;
            y += sy;
        }
    }
}

#[test]
fn a_triangle_is_written_square_by_square_along_its_edges() {
    for t in [1i64, 2, 3, 6] {
        let (a, b, c) = ((-2i64, 1i64), (9i64, 4i64), (3i64, 11i64));
        let mut sink = Ili9341Display::new(Tally { writes: Vec::new() }, 8, 7);
        let tri = Triangle {
            a: Point { x: a.0 as i32, y: a.1 as i32 },
            b: Point { x: b.0 as i32, y: b.1 as i32 },
            c: Point { x: c.0 as i32, y: c.1 as i32 },
        };
        draw_triangle_outline(&mut sink, tri, Rgb565(5), t as u16).unwrap();
        let mut want = Vec::new();
        stroke(a, b, t, 8, 7, &mut want);
        stroke(b, c, t, 8, 7, &mut want);
        stroke(c, a, t, 8, 7, &mut want);
        let got: Vec<(u16, u16)> = sink.drv.writes.iter().map(|w| (w.0, w.1)).collect();
        assert_eq!(got, want, "thickness {t}");
        assert!(sink.drv.writes.iter().all(|w| w.2 == Rgb565(5)));
    }
}

#[test]
fn a_rectangle_is_written_band_by_band() {
    let mut sink = Ili9341Display::new(Tally { writes: Vec::new() }, 6, 6);
    draw_rectangle_outline(&mut sink, Rect { x: 1, y: 1, width: 4, height: 4 }, Rgb565(3), 1).unwrap();
    let got: Vec<(u16, u16)> = sink.drv.writes.iter().map(|w| (w.0, w.1)).collect();
    assert_eq!(
        got,
        vec![(1, 1), (2, 1), (3, 1), (4, 1), (1, 4), (2, 4), (3, 4), (4, 4), (1, 2), (1, 3), (4, 2), (4, 3)]
    );
    // bands that overlap write their common pixels once each
    let mut sink = Ili9341Display::new(Tally { writes: Vec::new() }, 6, 6);
    draw_rectangle_outline(&mut sink, Rect { x: 0, y: 0, width: 2, height: 3 }, Rgb565(3), 2).unwrap();
    let got: Vec<(u16, u16)> = sink.drv.writes.iter().map(|w| (w.0, w.1)).collect();
    assert_eq!(
        got,
        vec![(0, 0), (1, 0), (0, 1), (1, 1), (0, 1), (1, 1), (0, 2), (1, 2)]
    );
}

#[test]
fn a_shape_off_the_surface_hands_the_sink_nothing() {
    let mut sink = Ili9341Display::new(Tally { writes: Vec::new() }, 10, 10);
    draw_rectangle_outline(&mut sink, Rect { x: 15, y: 15, width: 3, height: 3 }, Rgb565(3), 1).unwrap();
    draw_rectangle_outline(&mut sink, Rect { x: 2, y: 2, width: 0, height: 5 }, Rgb565(3), 2).unwrap();
    draw_rectangle_outline(&mut sink, Rect { x: 2, y: 2, width: 5, height: 5 }, Rgb565(3), 0).unwrap();
    draw_rectangle_outline(&mut sink, Rect { x: -5, y: -5, width: 20, height: 20 }, Rgb565(3), 1).unwrap();
    let far = Triangle { a: Point { x: 20, y: 20 }, b: Point { x: 25, y: 25 }, c: Point { x: 22, y: 28 } };
    draw_triangle_outline(&mut sink, far, Rgb565(3), 1).unwrap();
    let p = Point { x: 5, y: 5 };
    draw_triangle_outline(&mut sink, Triangle { a: p, b: p, c: p }, Rgb565(3), 4).unwrap();
    let near = Triangle { a: Point { x: 1, y: 1 }, b: Point { x: 5, y: 2 }, c: Point { x: 2, y: 6 } };
    draw_triangle_outline(&mut sink, near, Rgb565(3), 0).unwrap();
    assert!(sink.drv.writes.is_empty());
}
