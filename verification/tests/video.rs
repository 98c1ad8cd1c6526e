use another_world::data::{Tables, Text};
use another_world::video::soft::{
    clear_fb, copy_fb, draw_bitmap, draw_char, draw_point, draw_polygon, State, COL_ALPHA,
    COL_PAGE, FB_SIZE,
};
use another_world::video::{
    copy_bitmap, copy_page, draw_string, ega_decode, fill_page, select_page, swap_pages,
    vga_decode, QuadStrip, RgbColor, Vertex, VideoContext,
};

fn count_pixels(s: &State, fb: u8, color: u8) -> usize {
    let mut n = 0;
    for y in 0..200u16 {
        for x in 0..320u16 {
            if s.pixel(fb, x, y) == color {
                n += 1;
            }
        }
    }
    n
}

fn strip(points: &[(i16, i16)]) -> QuadStrip {
    let mut qs = QuadStrip::new();
    for (x, y) in points {
        qs.push(Vertex { x: *x, y: *y });
    }
    qs
}

fn test_font() -> Vec<u8> {
    let mut font = vec![0u8; 768];
    // 'A' (0x41): a full first row and a left column.
    let a = (0x41 - 0x20) * 8;
    font[a] = 0xFF;
    for j in 1..8 {
        font[a + j] = 0x80;
    }
    // 'B' (0x42): only the bottom right pixel.
    let b = (0x42 - 0x20) * 8;
    font[b + 7] = 0x01;
    font
}

fn test_tables(strings: Vec<Text>) -> Tables {
    Tables::new(test_font(), strings, vec![11025; 40]).unwrap()
}

#[test]
fn new_state_is_black() {
    let s = State::new();
    for fb in 0..4 {
        assert_eq!(count_pixels(&s, fb, 0), FB_SIZE);
    }
}

#[test]
fn clear_fills_one_page_only() {
    let mut s = State::new();
    clear_fb(&mut s, 2, 9);
    assert_eq!(count_pixels(&s, 2, 9), FB_SIZE);
    assert_eq!(count_pixels(&s, 1, 0), FB_SIZE);
    assert_eq!(count_pixels(&s, 3, 0), FB_SIZE);
}

#[test]
fn point_colours() {
    let mut s = State::new();
    draw_point(&mut s, 1, 5, 7, 3);
    assert_eq!(s.pixel(1, 5, 7), 3);
    assert_eq!(count_pixels(&s, 1, 3), 1);
    // Alpha sets bit 3 of what is there.
    draw_point(&mut s, 1, 5, 7, COL_ALPHA);
    assert_eq!(s.pixel(1, 5, 7), 11);
    // Page takes the pixel of page 0.
    draw_point(&mut s, 0, 5, 7, 6);
    draw_point(&mut s, 1, 5, 7, COL_PAGE);
    assert_eq!(s.pixel(1, 5, 7), 6);
}

#[test]
fn copy_plain() {
    let mut s = State::new();
    draw_point(&mut s, 0, 0, 0, 1);
    draw_point(&mut s, 0, 319, 199, 2);
    copy_fb(&mut s, 3, 0, 0);
    assert_eq!(s.pixel(3, 0, 0), 1);
    assert_eq!(s.pixel(3, 319, 199), 2);
    assert_eq!(count_pixels(&s, 3, 0), FB_SIZE - 2);
}

#[test]
fn copy_scrolled_down_and_up() {
    let mut s = State::new();
    draw_point(&mut s, 0, 10, 0, 1);
    draw_point(&mut s, 0, 10, 100, 2);
    draw_point(&mut s, 0, 10, 199, 3);
    clear_fb(&mut s, 1, 7);
    // Down by 50: line 0 lands on line 50; lines above keep what they had.
    copy_fb(&mut s, 1, 0, 50);
    assert_eq!(s.pixel(1, 10, 50), 1);
    assert_eq!(s.pixel(1, 10, 150), 2);
    assert_eq!(s.pixel(1, 10, 49), 7);
    assert_eq!(s.pixel(1, 0, 0), 7);
    assert_eq!(count_pixels(&s, 1, 7), 50 * 320);
    assert_eq!(count_pixels(&s, 1, 3), 0);
    clear_fb(&mut s, 2, 7);
    // Up by 100: line 100 lands on line 0; the lowest lines keep theirs.
    copy_fb(&mut s, 2, 0, -100);
    assert_eq!(s.pixel(2, 10, 0), 2);
    assert_eq!(s.pixel(2, 10, 99), 3);
    assert_eq!(count_pixels(&s, 2, 7), 100 * 320);
    assert_eq!(count_pixels(&s, 2, 1), 0);
}

#[test]
fn copy_scroll_out_of_range_copies_nothing() {
    let mut s = State::new();
    clear_fb(&mut s, 0, 4);
    copy_fb(&mut s, 1, 0, 200);
    assert_eq!(count_pixels(&s, 1, 0), FB_SIZE);
    copy_fb(&mut s, 1, 0, -200);
    assert_eq!(count_pixels(&s, 1, 0), FB_SIZE);
    copy_fb(&mut s, 1, 0, 199);
    assert_eq!(count_pixels(&s, 1, 4), 320);
}

#[test]
fn polygon_quad_fill() {
    // The quad with the corners (10,10), (50,10), (50,30), (10,30), given in
    // the order in which the rasteriser pairs them: the first corner with
    // the last, the second with the third. One strip of 20 lines from line
    // 10 on, each from column 10 to column 50.
    let mut s = State::new();
    let qs = strip(&[(50, 10), (50, 30), (10, 30), (10, 10)]);
    draw_polygon(&mut s, 0, &qs, 7);
    assert_eq!(count_pixels(&s, 0, 7), 41 * 20);
    assert_eq!(s.pixel(0, 10, 10), 7);
    assert_eq!(s.pixel(0, 50, 29), 7);
    assert_eq!(s.pixel(0, 9, 10), 0);
    assert_eq!(s.pixel(0, 51, 10), 0);
    assert_eq!(s.pixel(0, 10, 9), 0);
    assert_eq!(s.pixel(0, 10, 30), 0);
    for fb in 1..4 {
        assert_eq!(count_pixels(&s, fb, 0), FB_SIZE);
    }
}

#[test]
fn polygon_whose_pairs_are_not_level_has_no_height() {
    // The same corners walked round the outline: the first pair is a
    // vertical edge, and both edges of the only strip are level, so the
    // strip has no lines.
    let mut s = State::new();
    let qs = strip(&[(10, 10), (50, 10), (50, 30), (10, 30)]);
    draw_polygon(&mut s, 0, &qs, 7);
    assert_eq!(count_pixels(&s, 0, 7), 0);
}

#[test]
fn polygon_with_two_corners_draws_nothing() {
    let mut s = State::new();
    let qs = strip(&[(10, 10), (50, 10)]);
    draw_polygon(&mut s, 0, &qs, 7);
    assert_eq!(count_pixels(&s, 0, 7), 0);
}

#[test]
fn polygon_triangle_edges_are_interpolated() {
    // A strip of six corners: two quads on top of each other. Left edge
    // straight at column 100; right edge goes from 100 to 120 over ten
    // lines, then back to 100 over ten more.
    let mut s = State::new();
    let qs = strip(&[(100, 0), (120, 10), (100, 20), (100, 20), (100, 10), (100, 0)]);
    draw_polygon(&mut s, 1, &qs, 5);
    // Line 0: from 100 to 100. Line 5: right edge at 100.5 + 5 * 2 = 110.
    assert_eq!(s.pixel(1, 100, 0), 5);
    assert_eq!(s.pixel(1, 101, 0), 0);
    assert_eq!(s.pixel(1, 110, 5), 5);
    assert_eq!(s.pixel(1, 111, 5), 0);
    // Line 10 starts the second strip with the right edge at 120.
    assert_eq!(s.pixel(1, 120, 10), 5);
    assert_eq!(s.pixel(1, 121, 10), 0);
    assert_eq!(s.pixel(1, 110, 15), 5);
    assert_eq!(s.pixel(1, 111, 15), 0);
    assert_eq!(s.pixel(1, 100, 20), 0);
}

#[test]
fn polygon_is_clipped_to_the_screen() {
    let mut s = State::new();
    let qs = strip(&[(400, -10), (400, 300), (-50, 300), (-50, -10)]);
    draw_polygon(&mut s, 2, &qs, 1);
    assert_eq!(count_pixels(&s, 2, 1), FB_SIZE);
}

#[test]
fn polygon_left_of_the_screen_draws_nothing() {
    let mut s = State::new();
    let qs = strip(&[(-10, 10), (-10, 30), (-50, 30), (-50, 10)]);
    draw_polygon(&mut s, 2, &qs, 1);
    assert_eq!(count_pixels(&s, 2, 1), 0);
}

#[test]
fn polygon_alpha_and_page_colours() {
    let mut s = State::new();
    clear_fb(&mut s, 0, 2);
    clear_fb(&mut s, 1, 4);
    let qs = strip(&[(19, 0), (19, 10), (0, 10), (0, 0)]);
    draw_polygon(&mut s, 1, &qs, COL_ALPHA);
    assert_eq!(count_pixels(&s, 1, 12), 200);
    draw_polygon(&mut s, 1, &qs, COL_PAGE);
    assert_eq!(count_pixels(&s, 1, 2), 200);
    assert_eq!(count_pixels(&s, 1, 4), FB_SIZE - 200);
    // On page 0 the page colour changes nothing.
    draw_polygon(&mut s, 0, &qs, COL_PAGE);
    assert_eq!(count_pixels(&s, 0, 2), FB_SIZE);
}

#[test]
fn char_glyph_pixels() {
    let mut s = State::new();
    let font = test_font();
    draw_char(&mut s, 0, 16, 8, 'A', 3, &font);
    assert_eq!(count_pixels(&s, 0, 3), 8 + 7);
    for i in 0..8 {
        assert_eq!(s.pixel(0, 16 + i, 8), 3);
    }
    for j in 1..8 {
        assert_eq!(s.pixel(0, 16, 8 + j), 3);
        assert_eq!(s.pixel(0, 17, 8 + j), 0);
    }
    draw_char(&mut s, 0, 0, 0, 'B', 4, &font);
    assert_eq!(count_pixels(&s, 0, 4), 1);
    assert_eq!(s.pixel(0, 7, 7), 4);
}

#[test]
fn char_at_the_edges() {
    let mut s = State::new();
    let font = test_font();
    draw_char(&mut s, 0, 312, 192, 'A', 3, &font);
    assert_eq!(count_pixels(&s, 0, 3), 15);
    assert_eq!(s.pixel(0, 319, 192), 3);
    assert_eq!(s.pixel(0, 312, 199), 3);
    draw_char(&mut s, 1, 313, 0, 'A', 3, &font);
    draw_char(&mut s, 1, 0, 193, 'A', 3, &font);
    assert_eq!(count_pixels(&s, 1, 3), 0);
}

#[test]
fn bitmap_replaces_page() {
    let mut s = State::new();
    clear_fb(&mut s, 1, 9);
    let data: Vec<u8> = (0..FB_SIZE).map(|i| (i % 16) as u8).collect();
    draw_bitmap(&mut s, 1, &data);
    assert_eq!(s.pixel(1, 0, 0), 0);
    assert_eq!(s.pixel(1, 5, 0), 5);
    assert_eq!(s.pixel(1, 319, 199), ((FB_SIZE - 1) % 16) as u8);
    assert_eq!(count_pixels(&s, 0, 0), FB_SIZE);
}

#[test]
fn rgb565_words() {
    assert_eq!(RgbColor { r: 0xFF, g: 0xFF, b: 0xFF }.as_rgb565(), 0xFFFF);
    assert_eq!(RgbColor { r: 0xFF, g: 0, b: 0 }.as_rgb565(), 0xF800);
    assert_eq!(RgbColor { r: 0, g: 0xFF, b: 0 }.as_rgb565(), 0x07E0);
    assert_eq!(RgbColor { r: 0, g: 0, b: 0xFF }.as_rgb565(), 0x001F);
    assert_eq!(RgbColor { r: 0x12, g: 0x34, b: 0x56 }.as_rgb565(), 0x11AA);
}

#[test]
fn read_pixels_goes_through_the_palette() {
    let mut s = State::new();
    let mut pal = [RgbColor { r: 0, g: 0, b: 0 }; 16];
    pal[1] = RgbColor { r: 0xFF, g: 0, b: 0 };
    pal[2] = RgbColor { r: 0, g: 0, b: 0xFF };
    s.set_pal(pal);
    draw_point(&mut s, 2, 0, 0, 1);
    // Only the low nibble of a pixel picks the colour.
    draw_point(&mut s, 2, 1, 0, 0x12);
    let mut out = vec![0xAAAAu16; FB_SIZE + 3];
    s.read_pixels(2, &mut out);
    assert_eq!(out[0], 0xF800);
    assert_eq!(out[1], 0x001F);
    assert_eq!(out[2], 0);
    assert_eq!(out[FB_SIZE - 1], 0);
    assert_eq!(out[FB_SIZE], 0xAAAA);
}

#[test]
fn vga_palette_word() {
    assert_eq!(vga_decode(0x0F80), RgbColor { r: 0xFF, g: 0x88, b: 0x00 });
    assert_eq!(vga_decode(0x0123), RgbColor { r: 0x11, g: 0x22, b: 0x33 });
    // The top four bits do not count.
    assert_eq!(vga_decode(0xF123), RgbColor { r: 0x11, g: 0x22, b: 0x33 });
}

#[test]
fn vga_palette_word_byte_order() {
    // The bytes 0x01, 0x23 read big-endian, and read little-endian with the
    // bytes swapped, give the same colour.
    let be = u16::from_be_bytes([0x01, 0x23]);
    let le = u16::from_le_bytes([0x01, 0x23]).swap_bytes();
    assert_eq!(vga_decode(be).as_rgb565(), vga_decode(le).as_rgb565());
    assert_eq!(vga_decode(be).as_rgb565(), 0x1106);
}

#[test]
fn ega_palette_word() {
    assert_eq!(ega_decode(0x0000), RgbColor { r: 0, g: 0, b: 0 });
    assert_eq!(ega_decode(0x6FFF), RgbColor { r: 0xAA, g: 0x55, b: 0x00 });
    assert_eq!(ega_decode(0xF000), RgbColor { r: 0xFF, g: 0xFF, b: 0xFF });
    assert_eq!(ega_decode(0x9123), RgbColor { r: 0x55, g: 0x55, b: 0xFF });
}

#[test]
fn quad_strip_keeps_order() {
    let qs = strip(&[(1, 2), (3, 4), (5, 6)]);
    let vs = qs.vertices();
    assert_eq!(vs.len(), 3);
    assert_eq!(vs[0], Vertex { x: 1, y: 2 });
    assert_eq!(vs[2], Vertex { x: 5, y: 6 });
    assert_eq!(QuadStrip::new().vertices().len(), 0);
}

#[test]
fn pages_at_start() {
    let mut v = VideoContext::new();
    assert!(v.needs_pal_fixup());
    assert_eq!(v.front_page(), 2);
    // The page drawn on is page 2 as well.
    fill_page(&mut v, 0xFE, 5);
    assert_eq!(count_pixels(&v.rndr, 2, 5), FB_SIZE);
    // The back page is page 1.
    fill_page(&mut v, 0xFF, 6);
    assert_eq!(count_pixels(&v.rndr, 1, 6), FB_SIZE);
    // An unknown page number stands for page 0.
    fill_page(&mut v, 0x40, 7);
    assert_eq!(count_pixels(&v.rndr, 0, 7), FB_SIZE);
}

#[test]
fn swap_pages_twice_restores() {
    let mut v = VideoContext::new();
    assert_eq!(swap_pages(&mut v, 0xFF), 1);
    fill_page(&mut v, 0xFF, 3);
    assert_eq!(count_pixels(&v.rndr, 2, 3), FB_SIZE);
    assert_eq!(swap_pages(&mut v, 0xFF), 2);
    fill_page(&mut v, 0xFF, 4);
    assert_eq!(count_pixels(&v.rndr, 1, 4), FB_SIZE);
    assert_eq!(v.front_page(), 2);
}

#[test]
fn swap_pages_front_and_numbered() {
    let mut v = VideoContext::new();
    assert_eq!(swap_pages(&mut v, 0xFE), 2);
    assert_eq!(swap_pages(&mut v, 3), 3);
    assert_eq!(v.front_page(), 3);
    assert_eq!(swap_pages(&mut v, 0xFF), 1);
    assert_eq!(swap_pages(&mut v, 0xFF), 3);
}

#[test]
fn select_page_sets_the_page_drawn_on() {
    let mut v = VideoContext::new();
    let tables = test_tables(vec![Text { id: 1, text: "A".chars().collect() }]);
    select_page(&mut v, 3);
    draw_string(&mut v, &tables, 0, 0, 1, 2);
    assert_eq!(count_pixels(&v.rndr, 3, 2), 15);
    select_page(&mut v, 0xFF);
    draw_string(&mut v, &tables, 0, 0, 1, 2);
    assert_eq!(count_pixels(&v.rndr, 1, 2), 15);
}

#[test]
fn copy_page_plain_and_scrolled() {
    let mut v = VideoContext::new();
    fill_page(&mut v, 0, 1);
    // Bit 6 of the source means nothing in a plain copy.
    copy_page(&mut v, 0x40, 1, 77);
    assert_eq!(count_pixels(&v.rndr, 1, 1), FB_SIZE);
    // Bit 7: the scroll counts, the page is the low two bits.
    fill_page(&mut v, 3, 9);
    copy_page(&mut v, 0x80, 3, 10);
    assert_eq!(count_pixels(&v.rndr, 3, 9), 10 * 320);
    assert_eq!(count_pixels(&v.rndr, 3, 1), 190 * 320);
    // Out of range: nothing.
    fill_page(&mut v, 3, 9);
    copy_page(&mut v, 0x80, 3, 200);
    assert_eq!(count_pixels(&v.rndr, 3, 9), FB_SIZE);
    // A page is not copied onto itself.
    copy_page(&mut v, 0x83, 3, 10);
    assert_eq!(count_pixels(&v.rndr, 3, 9), FB_SIZE);
    copy_page(&mut v, 3, 3, 0);
    assert_eq!(count_pixels(&v.rndr, 3, 9), FB_SIZE);
    // The front page as source: a plain copy of page 2.
    fill_page(&mut v, 2, 6);
    copy_page(&mut v, 0xFE, 0, 33);
    assert_eq!(count_pixels(&v.rndr, 0, 6), FB_SIZE);
}

#[test]
fn planar_bitmap_to_page() {
    let mut v = VideoContext::new();
    let mut mem = vec![0u8; 32000];
    // First byte of each plane: the leftmost pixel gets all four bits, the
    // second only the bit of the plane at 8000, the eighth that of plane 0.
    mem[24000] = 0b1000_0000;
    mem[16000] = 0b1000_0000;
    mem[8000] = 0b1100_0000;
    mem[0] = 0b1000_0001;
    // Byte 40 of plane 0 is the start of line 1.
    mem[40] = 0b0000_0010;
    fill_page(&mut v, 1, 5);
    copy_bitmap(&mut v, &mem);
    assert_eq!(v.rndr.pixel(0, 0, 0), 15);
    assert_eq!(v.rndr.pixel(0, 1, 0), 2);
    assert_eq!(v.rndr.pixel(0, 2, 0), 0);
    assert_eq!(v.rndr.pixel(0, 7, 0), 1);
    assert_eq!(v.rndr.pixel(0, 6, 1), 1);
    assert_eq!(count_pixels(&v.rndr, 0, 0), FB_SIZE - 4);
    assert_eq!(count_pixels(&v.rndr, 1, 5), FB_SIZE);
}

#[test]
fn string_with_line_feed_and_unknown_id() {
    let mut v = VideoContext::new();
    let tables = test_tables(vec![
        Text { id: 7, text: "A\nAB".chars().collect() },
        Text { id: 7, text: "B".chars().collect() },
        Text { id: 9, text: "A\u{e9}A".chars().collect() },
    ]);
    select_page(&mut v, 0);
    draw_string(&mut v, &tables, 2, 10, 7, 3);
    // 'A' at column 2, line 10; after the line feed 'A' at column 2 and 'B'
    // at column 3, line 18.
    assert_eq!(v.rndr.pixel(0, 16, 10), 3);
    assert_eq!(v.rndr.pixel(0, 16, 18), 3);
    assert_eq!(v.rndr.pixel(0, 31, 25), 3);
    assert_eq!(count_pixels(&v.rndr, 0, 3), 15 + 15 + 1);
    draw_string(&mut v, &tables, 2, 10, 8, 4);
    assert_eq!(count_pixels(&v.rndr, 0, 4), 0);
    // A character without a glyph leaves a gap.
    select_page(&mut v, 1);
    draw_string(&mut v, &tables, 0, 0, 9, 5);
    assert_eq!(v.rndr.pixel(1, 0, 0), 5);
    assert_eq!(v.rndr.pixel(1, 8, 0), 0);
    assert_eq!(v.rndr.pixel(1, 16, 0), 5);
    assert_eq!(count_pixels(&v.rndr, 1, 5), 30);
}

#[test]
fn string_off_screen_is_not_drawn() {
    let mut v = VideoContext::new();
    let tables = test_tables(vec![Text { id: 1, text: "AAA".chars().collect() }]);
    select_page(&mut v, 0);
    // Columns 38, 39 and 40: the third is off the screen.
    draw_string(&mut v, &tables, 38, 0, 1, 3);
    assert_eq!(count_pixels(&v.rndr, 0, 3), 30);
    draw_string(&mut v, &tables, 0, 193, 1, 4);
    assert_eq!(count_pixels(&v.rndr, 0, 4), 0);
}

#[test]
fn video_context_setters() {
    let mut v = VideoContext::new();
    v.set_dc(0x1234, true);
    v.set_use_ega_pal(true);
    v.invalidate_pal_num();
    assert!(v.needs_pal_fixup());
    assert_eq!(v.front_page(), 2);
}
