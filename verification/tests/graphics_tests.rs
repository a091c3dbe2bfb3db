use usya::gpu::compositor::{Compositor, Font};
use usya::gpu::display::{display_size, draw_iter, logo_origin, logo_placement, DisplayPixel};
use usya::gpu::framebuffer::{FrameBufferInfo, PixelFormat};

fn info(width: usize, height: usize, bpp: usize, format: PixelFormat) -> FrameBufferInfo {
    FrameBufferInfo {
        byte_len: width * height * bpp,
        width,
        height,
        pixel_format: format,
        bytes_per_pixel: bpp,
        stride: width,
    }
}

/// A font whose glyph for 'A' is a 3 x 2 block pattern and whose glyph 0
/// has one pixel; the rest are blank.
fn test_font() -> Font {
    let mut glyphs = vec![vec![0u8, 0u8]; 128];
    glyphs['A' as usize] = vec![0b101, 0b010];
    glyphs[0] = vec![0b100, 0];
    Font::new(glyphs, 3, 2)
}

fn compositor(width: usize, height: usize, bpp: usize, format: PixelFormat) -> Compositor {
    let i = info(width, height, bpp, format);
    Compositor::new(vec![0; i.byte_len], vec![0; i.byte_len], i, test_font())
}

#[test]
fn clear_fills_rgb_pixels_with_opaque_alpha() {
    let mut c = compositor(2, 2, 4, PixelFormat::Rgb);
    c.clear(1, 2, 3);
    assert_eq!(c.back_buffer().clone(), vec![1, 2, 3, 255, 1, 2, 3, 255, 1, 2, 3, 255, 1, 2, 3, 255]);
    assert_eq!(c.front_buffer().clone(), vec![0; 16]);
}

#[test]
fn clear_writes_bgr_order() {
    let mut c = compositor(2, 1, 3, PixelFormat::Bgr);
    c.clear(10, 20, 30);
    assert_eq!(c.back_buffer().clone(), vec![30, 20, 10, 30, 20, 10]);
}

#[test]
fn clear_grey_is_sum_of_thirds() {
    let mut c = compositor(2, 1, 1, PixelFormat::U8);
    c.clear(100, 100, 100);
    // The first pixel fits its three colour bytes only while two bytes
    // follow it; a one-byte pixel near the end is left alone.
    let i = info(4, 1, 1, PixelFormat::U8);
    let mut wide = Compositor::new(vec![0; 4], vec![0; 4], i, test_font());
    wide.clear(100, 100, 100);
    assert_eq!(wide.back_buffer().clone(), vec![99, 99, 0, 0]);
    assert_eq!(c.back_buffer().clone(), vec![0, 0]);
}

#[test]
fn clear_leaves_unknown_formats_but_sets_alpha() {
    let f = PixelFormat::Unknown { red_position: 0, green_position: 8, blue_position: 16 };
    let mut c = compositor(1, 1, 4, f);
    c.clear(1, 2, 3);
    assert_eq!(c.back_buffer().clone(), vec![0, 0, 0, 255]);
}

#[test]
fn draw_pixel_addresses_by_stride() {
    let mut i = info(2, 2, 3, PixelFormat::Rgb);
    i.stride = 3;
    i.byte_len = 3 * 2 * 3;
    let mut c = Compositor::new(vec![0; 18], vec![0; 18], i, test_font());
    c.draw_pixel(1, 1, 7, 8, 9);
    let mut expected = vec![0u8; 18];
    expected[12] = 7;
    expected[13] = 8;
    expected[14] = 9;
    assert_eq!(c.back_buffer().clone(), expected);
}

#[test]
fn draw_pixel_off_screen_changes_nothing() {
    let mut c = compositor(2, 2, 4, PixelFormat::Rgb);
    c.draw_pixel(2, 0, 1, 1, 1);
    c.draw_pixel(0, 5, 1, 1, 1);
    assert_eq!(c.back_buffer().clone(), vec![0; 16]);
}

#[test]
fn draw_rect_fills_its_area() {
    let mut c = compositor(3, 3, 1, PixelFormat::Rgb);
    c.draw_rect(1, 1, 5, 5, 9, 9, 9);
    // Only the visible pixels (1,1), (2,1), (1,2), (2,2) are drawn, each
    // writing its three colour bytes where they fit: (1,1) at 4..7 and
    // (2,1) at 5..8; (1,2) at 7 and (2,2) at 8 would run past the end.
    assert_eq!(c.back_buffer().clone(), vec![0, 0, 0, 0, 9, 9, 9, 9, 0]);
    let mut big = compositor(3, 3, 4, PixelFormat::Rgb);
    big.draw_rect(1, 0, 2, 2, 9, 9, 9);
    let lit: Vec<usize> = (0..9).filter(|k| big.back_buffer()[k * 4] == 9).collect();
    assert_eq!(lit, vec![1, 2, 4, 5]);
}

#[test]
fn draw_char_sets_glyph_bits() {
    let mut c = compositor(4, 2, 4, PixelFormat::Rgb);
    c.draw_char(0, 0, 'A', 5, 5, 5);
    let px = |x: usize, y: usize| c.back_buffer()[(y * 4 + x) * 4];
    assert_eq!((px(0, 0), px(1, 0), px(2, 0)), (5, 0, 5));
    assert_eq!((px(0, 1), px(1, 1), px(2, 1)), (0, 5, 0));
}

#[test]
fn draw_char_beyond_ascii_uses_glyph_zero() {
    let mut c = compositor(4, 2, 4, PixelFormat::Rgb);
    c.draw_char(1, 0, 'é', 5, 5, 5);
    let lit: Vec<usize> = (0..8).filter(|k| c.back_buffer()[k * 4] == 5).collect();
    assert_eq!(lit, vec![1]);
}

#[test]
fn draw_string_wraps_and_breaks_lines() {
    let mut c = compositor(9, 6, 4, PixelFormat::Rgb);
    c.draw_string(0, 0, "AA\nA", 7, 7, 7);
    let lit = |x: usize, y: usize| c.back_buffer()[(y * 9 + x) * 4] == 7;
    // First 'A' at x 0; after it the cursor is at 3 and 3 + 3 < 9, so the
    // second 'A' goes at x 3; after it 6 + 3 >= 9 wraps to the next line;
    // the newline moves down once more.
    assert!(lit(0, 0) && lit(2, 0) && lit(1, 1));
    assert!(lit(3, 0) && lit(5, 0) && lit(4, 1));
    assert!(!lit(6, 0));
    assert!(lit(0, 4) && lit(2, 4) && lit(1, 5));
}

#[test]
fn swap_buffers_copies_back_to_front() {
    let i = info(2, 1, 3, PixelFormat::Rgb);
    let mut c = Compositor::new(vec![0; 8], vec![0; 6], i, test_font());
    c.clear(1, 2, 3);
    c.swap_buffers();
    assert_eq!(c.front_buffer().clone(), vec![1, 2, 3, 1, 2, 3, 0, 0]);
    assert_eq!(c.width(), 2);
    assert_eq!(c.height(), 1);
}

#[test]
fn display_draws_pixels_in_format() {
    let i = info(2, 2, 3, PixelFormat::Bgr);
    let mut buf = vec![0u8; 12];
    let pixels = vec![
        DisplayPixel { x: 1, y: 0, r: 1, g: 2, b: 3 },
        DisplayPixel { x: -1, y: 0, r: 9, g: 9, b: 9 },
        DisplayPixel { x: 0, y: 2, r: 9, g: 9, b: 9 },
    ];
    draw_iter(&mut buf, &i, &pixels);
    assert_eq!(buf, vec![0, 0, 0, 3, 2, 1, 0, 0, 0, 0, 0, 0]);
}

#[test]
fn display_grey_averages_channels() {
    let i = info(1, 1, 4, PixelFormat::U8);
    let mut buf = vec![0u8; 4];
    draw_iter(&mut buf, &i, &[DisplayPixel { x: 0, y: 0, r: 100, g: 100, b: 101 }]);
    assert_eq!(buf, vec![100, 0, 0, 0]);
    assert_eq!(display_size(&i), (1, 1));
}

#[test]
fn logo_is_centred() {
    assert_eq!(logo_origin(1024, 768, 200, 100), (412, 334));
    assert_eq!(logo_origin(100, 100, 300, 50), (0, 25));
}

fn bmp_2x1() -> Vec<u8> {
    let mut b = Vec::new();
    b.extend_from_slice(b"BM");
    b.extend_from_slice(&(14u32 + 40 + 8).to_le_bytes());
    b.extend_from_slice(&[0, 0, 0, 0]);
    b.extend_from_slice(&(14u32 + 40).to_le_bytes());
    b.extend_from_slice(&40u32.to_le_bytes());
    b.extend_from_slice(&2i32.to_le_bytes());
    b.extend_from_slice(&1i32.to_le_bytes());
    b.extend_from_slice(&1u16.to_le_bytes());
    b.extend_from_slice(&24u16.to_le_bytes());
    b.extend_from_slice(&0u32.to_le_bytes());
    b.extend_from_slice(&8u32.to_le_bytes());
    b.extend_from_slice(&[0; 16]);
    b.extend_from_slice(&[0, 0, 255, 0, 255, 0, 0, 0]);
    b
}

#[test]
fn logo_placement_reads_bmp_size() {
    assert_eq!(logo_placement(&bmp_2x1(), 10, 5), Some((4, 2)));
    assert_eq!(logo_placement(b"not a bitmap", 10, 5), None);
}

#[test]
fn drawing_a_pixel_twice_is_drawing_it_once() {
    let mut once = compositor(3, 2, 4, PixelFormat::Bgr);
    let mut twice = compositor(3, 2, 4, PixelFormat::Bgr);
    once.draw_pixel(1, 1, 7, 8, 9);
    twice.draw_pixel(1, 1, 7, 8, 9);
    twice.draw_pixel(1, 1, 7, 8, 9);
    assert_eq!(once.back_buffer().clone(), twice.back_buffer().clone());
}

#[test]
fn clearing_twice_is_clearing_once() {
    for (bpp, format) in [(1, PixelFormat::Rgb), (3, PixelFormat::Rgb), (4, PixelFormat::Bgr), (2, PixelFormat::U8)] {
        let mut once = compositor(5, 2, bpp, format);
        once.draw_pixel(2, 1, 40, 50, 60);
        let mut twice = compositor(5, 2, bpp, format);
        twice.draw_pixel(2, 1, 40, 50, 60);
        once.clear(1, 2, 3);
        twice.clear(1, 2, 3);
        twice.clear(1, 2, 3);
        assert_eq!(once.back_buffer().clone(), twice.back_buffer().clone());
    }
}

#[test]
fn a_pixel_in_the_clearing_colour_changes_nothing() {
    let mut c = compositor(3, 2, 4, PixelFormat::Rgb);
    c.clear(1, 2, 3);
    let cleared = c.back_buffer().clone();
    for y in 0..2 {
        for x in 0..3 {
            c.draw_pixel(x, y, 1, 2, 3);
        }
    }
    assert_eq!(c.back_buffer().clone(), cleared);
}

#[test]
fn a_non_ascii_character_draws_glyph_zero() {
    let mut accented = compositor(8, 4, 4, PixelFormat::Rgb);
    let mut nul = compositor(8, 4, 4, PixelFormat::Rgb);
    accented.draw_char(2, 1, 'é', 9, 9, 9);
    nul.draw_char(2, 1, '\0', 9, 9, 9);
    assert_eq!(accented.back_buffer().clone(), nul.back_buffer().clone());
    assert_ne!(accented.back_buffer().clone(), vec![0; 8 * 4 * 4]);
}

#[test]
fn a_string_on_one_line_is_its_characters_in_turn() {
    let mut by_string = compositor(12, 3, 4, PixelFormat::Rgb);
    let mut by_chars = compositor(12, 3, 4, PixelFormat::Rgb);
    by_string.draw_string(1, 0, "AéA", 5, 6, 7);
    by_chars.draw_char(1, 0, 'A', 5, 6, 7);
    by_chars.draw_char(4, 0, 'é', 5, 6, 7);
    by_chars.draw_char(7, 0, 'A', 5, 6, 7);
    assert_eq!(by_string.back_buffer().clone(), by_chars.back_buffer().clone());
}
