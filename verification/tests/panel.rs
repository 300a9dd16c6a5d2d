use f429_disco::game_display::{area_in_range, checked_area, checked_point, point_in_range};
use f429_disco::hw::gc9a01::{Gc9a01Parallel, Line, PanelStep};
use f429_disco::hw::onboard::{draw_rect_outline, wire_bytes, Ili9341Fmc, Ili9341Spi, PanelWord};

fn window(x0: u16, y0: u16, x1: u16, y1: u16) -> Vec<PanelWord> {
    vec![
        PanelWord::Cmd(0x2A),
        PanelWord::Data16(x0),
        PanelWord::Data16(x1),
        PanelWord::Cmd(0x2B),
        PanelWord::Data16(y0),
        PanelWord::Data16(y1),
        PanelWord::Cmd(0x2C),
    ]
}

fn pixel(x: u16, y: u16, color: u16) -> Vec<PanelWord> {
    let mut words = window(x, y, x, y);
    words.push(PanelWord::Data16(color));
    words
}

#[test]
fn a_window_names_its_columns_then_its_pages() {
    assert_eq!(Ili9341Spi::set_window(1, 2, 3, 4), window(1, 2, 3, 4));
    assert_eq!(Ili9341Spi::set_window(0, 0, 239, 319), window(0, 0, 239, 319));
}

#[test]
fn a_pixel_is_a_window_of_one() {
    assert_eq!(Ili9341Spi::set_pixel(7, 9, 0xF800), pixel(7, 9, 0xF800));
}

#[test]
fn a_fill_streams_one_word_for_each_pixel() {
    let mut want = window(0, 0, 239, 319);
    want.push(PanelWord::Stream { word: 0xFFFF, count: 240 * 320 });
    assert_eq!(Ili9341Spi::fill_rect(0, 0, 240, 320, 0xFFFF), want);

    let mut want = window(5, 6, 5, 6);
    want.push(PanelWord::Stream { word: 1, count: 0 });
    assert_eq!(Ili9341Spi::fill_rect(5, 6, 0, 0, 1), want);

    let mut want = window(65000, 10, 65535, 10);
    want.push(PanelWord::Stream { word: 1, count: 1000 });
    assert_eq!(Ili9341Spi::fill_rect(65000, 10, 1000, 1, 1), want);

    let mut want = window(0, 0, 65534, 65534);
    want.push(PanelWord::Stream { word: 2, count: 65535 * 65535 });
    assert_eq!(Ili9341Spi::fill_rect(0, 0, 65535, 65535, 2), want);
}

#[test]
fn an_outline_is_two_rows_and_the_ends_of_every_row() {
    let mut want = window(10, 20, 12, 20);
    want.push(PanelWord::Stream { word: 7, count: 3 });
    want.extend(window(10, 21, 12, 21));
    want.push(PanelWord::Stream { word: 7, count: 3 });
    want.extend(pixel(10, 20, 7));
    want.extend(pixel(12, 20, 7));
    want.extend(pixel(10, 21, 7));
    want.extend(pixel(12, 21, 7));
    assert_eq!(draw_rect_outline(10, 20, 3, 2, 7), want);
}

#[test]
fn an_outline_without_size_is_one_pixel() {
    let mut want = window(4, 4, 4, 4);
    want.push(PanelWord::Stream { word: 7, count: 1 });
    want.extend(window(4, 4, 4, 4));
    want.push(PanelWord::Stream { word: 7, count: 1 });
    want.extend(pixel(4, 4, 7));
    want.extend(pixel(4, 4, 7));
    assert_eq!(draw_rect_outline(4, 4, 0, 0, 7), want);
}

#[test]
fn an_outline_at_the_last_row_stops_there() {
    let words = draw_rect_outline(0, 65534, 2, 9, 7);
    // rows 65534 and 65535: two streams with their windows, and four pixels
    assert_eq!(words.len(), 2 * 8 + 4 * 8);
    assert_eq!(words[8..15], window(0, 65535, 1, 65535)[..]);
    assert_eq!(words[words.len() - 8..], pixel(1, 65535, 7)[..]);
}

fn bring_up(settle: u32, finish: u32) -> Vec<PanelWord> {
    vec![
        PanelWord::Cmd(0x01),
        PanelWord::Pause { nops: settle },
        PanelWord::Cmd(0x11),
        PanelWord::Pause { nops: settle },
        PanelWord::Cmd(0x3A),
        PanelWord::Data8(0x55),
        PanelWord::Cmd(0x36),
        PanelWord::Data8(0x48),
        PanelWord::Cmd(0x2A),
        PanelWord::Data16(0),
        PanelWord::Data16(239),
        PanelWord::Cmd(0x2B),
        PanelWord::Data16(0),
        PanelWord::Data16(319),
        PanelWord::Cmd(0x29),
        PanelWord::Pause { nops: finish },
    ]
}

#[test]
fn the_panel_is_brought_up_the_same_way_on_either_bus() {
    assert_eq!(Ili9341Spi::init_and_take(), bring_up(800_000, 200_000));
    assert_eq!(Ili9341Fmc::init_and_take(), bring_up(8_000_000, 100_000));
    assert_eq!(Ili9341Fmc::set_window(1, 2, 3, 4), Ili9341Spi::set_window(1, 2, 3, 4));
    assert_eq!(Ili9341Fmc::set_pixel(1, 2, 3), Ili9341Spi::set_pixel(1, 2, 3));
    assert_eq!(Ili9341Fmc::fill_rect(1, 2, 3, 4, 5), Ili9341Spi::fill_rect(1, 2, 3, 4, 5));
}

#[test]
fn a_panel_is_known_by_its_identity() {
    assert_eq!(
        Ili9341Fmc::probe(),
        vec![
            PanelWord::Cmd(0x01),
            PanelWord::Pause { nops: 2_000_000 },
            PanelWord::Cmd(0x11),
            PanelWord::Pause { nops: 2_000_000 },
            PanelWord::Cmd(0xD3),
        ]
    );
    assert!(Ili9341Fmc::is_ili9341(0x00, 0x93, 0x41));
    assert!(!Ili9341Fmc::is_ili9341(0x93, 0x41, 0x00));
    assert!(!Ili9341Fmc::is_ili9341(0x00, 0x93, 0x40));
    assert!(!Ili9341Fmc::is_ili9341(0x01, 0x93, 0x41));
    assert!(!Ili9341Fmc::is_ili9341(0, 0, 0));
}

#[test]
fn data_words_go_high_byte_first() {
    assert_eq!(wire_bytes(0x1234), (0x12, 0x34));
    assert_eq!(wire_bytes(0x00FF), (0x00, 0xFF));
    assert_eq!(wire_bytes(0xFF00), (0xFF, 0x00));
    assert_eq!(wire_bytes(319), (1, 63));
}

#[test]
fn the_parallel_panel_is_brought_up_pin_by_pin() {
    let pin = |line, high| PanelStep::Pin { line, high };
    let word = PanelStep::Word;
    assert_eq!(
        Gc9a01Parallel::init(),
        vec![
            pin(Line::Cs, true),
            pin(Line::Wr, true),
            pin(Line::Rd, true),
            pin(Line::Dc, true),
            pin(Line::Bl, false),
            pin(Line::Rst, false),
            word(PanelWord::Pause { nops: 72_000 }),
            pin(Line::Rst, true),
            word(PanelWord::Pause { nops: 8_640_000 }),
            pin(Line::Cs, false),
            word(PanelWord::Cmd(0x11)),
            word(PanelWord::Pause { nops: 8_640_000 }),
            word(PanelWord::Cmd(0x3A)),
            word(PanelWord::Data8(0x55)),
            word(PanelWord::Cmd(0x36)),
            word(PanelWord::Data8(0x28)),
            word(PanelWord::Cmd(0x29)),
            pin(Line::Bl, true),
        ]
    );
    assert_eq!(Gc9a01Parallel::set_addr_window(5, 9), window(5, 9, 5, 9));
    assert_eq!(Gc9a01Parallel::set_pixel(5, 9, f429_disco::Rgb565(0x1234)), pixel(5, 9, 0x1234));
}

#[test]
fn the_data_lines_follow_the_bits() {
    assert_eq!(Gc9a01Parallel::set_bus(0x00), [false; 8]);
    assert_eq!(Gc9a01Parallel::set_bus(0xFF), [true; 8]);
    assert_eq!(Gc9a01Parallel::set_bus(0x01), [true, false, false, false, false, false, false, false]);
    assert_eq!(Gc9a01Parallel::set_bus(0x80), [false, false, false, false, false, false, false, true]);
    assert_eq!(Gc9a01Parallel::set_bus(0x5A), [false, true, false, true, true, false, true, false]);
}

#[test]
fn positions_and_sizes_must_fit_sixteen_bits() {
    assert!(area_in_range(0, 0, 0, 0));
    assert!(area_in_range(65535, 65535, 65535, 65535));
    assert!(!area_in_range(-1, 1, 1, 1));
    assert!(!area_in_range(1, 65536, 1, 1));
    assert!(!area_in_range(1, 1, 65536, 1));
    assert!(!area_in_range(1, 1, 1, u32::MAX));
    assert!(point_in_range(10, 20));
    assert!(!point_in_range(10, -20));
    assert!(!point_in_range(i32::MAX, 0));
    assert_eq!(checked_area(10, 20, 30, 40), (10, 20, 30, 40));
    assert_eq!(checked_area(65535, 0, 0, 65535), (65535, 0, 0, 65535));
    assert_eq!(checked_point(7, 65535), (7, 65535));
}
