use msgbox::color::Color;
use msgbox::geom::Location4;
use msgbox::glyph::GlyphImage;
use msgbox::surface::Drawing;

const WHITE: u32 = 0xFF_FF_FF_FF;

fn pixel(d: &Drawing, px: i32, py: i32) -> u32 {
    d.buf[(py * d.width + px) as usize]
}

#[test]
fn new_surface_is_opaque_white_everywhere() {
    let d = Drawing::new(7, 5);
    assert_eq!(d.width, 7);
    assert_eq!(d.height, 5);
    assert_eq!(d.buf.len(), 35);
    for p in d.buf.iter() {
        assert_eq!(*p, WHITE);
    }
    assert_eq!(d.mouse_x, 0);
    assert_eq!(d.mouse_y, 0);
}

#[test]
fn new_surface_of_any_size_clears_to_white() {
    for (w, h) in [(1, 1), (3, 8), (320, 150)] {
        let d = Drawing::new(w, h);
        assert_eq!(d.buf.len(), (w * h) as usize);
        assert!(d.buf.iter().all(|p| *p == WHITE));
    }
}

#[test]
fn process_mouse_overwrites_the_position() {
    let mut d = Drawing::new(2, 2);
    d.process_mouse(17, -3);
    assert_eq!(d.mouse_x, 17);
    assert_eq!(d.mouse_y, -3);
    d.process_mouse(0, 9);
    assert_eq!(d.mouse_x, 0);
    assert_eq!(d.mouse_y, 9);
}

#[test]
fn draw_square_overwrites_exactly_the_covered_pixels() {
    let mut d = Drawing::new(4, 3);
    d.draw_square(Location4::new(1, 1, 2, 1), Color::new(255, 10, 20, 30));
    for py in 0..3 {
        for px in 0..4 {
            let expected = if py == 1 && (px == 1 || px == 2) {
                0xFF_0A_14_1E
            } else {
                WHITE
            };
            assert_eq!(pixel(&d, px, py), expected, "pixel ({px},{py})");
        }
    }
}

#[test]
fn draw_square_clips_silently_at_the_edges() {
    let mut d = Drawing::new(3, 3);
    // Rectangle hangs off every side of the surface.
    d.draw_square(Location4::new(-1, -1, 10, 10), Color::black());
    assert!(d.buf.iter().all(|p| *p == 0xFF_00_00_00));
    // Entirely outside: nothing changes.
    let mut e = Drawing::new(3, 3);
    e.draw_square(Location4::new(5, 5, 2, 2), Color::black());
    assert!(e.buf.iter().all(|p| *p == WHITE));
}

#[test]
fn draw_square_with_no_extent_draws_nothing() {
    let mut d = Drawing::new(3, 3);
    d.draw_square(Location4::new(1, 1, 0, 5), Color::black());
    d.draw_square(Location4::new(1, 1, 5, 0), Color::black());
    d.draw_square(Location4::new(1, 1, -2, -2), Color::black());
    assert!(d.buf.iter().all(|p| *p == WHITE));
}

#[test]
fn later_fills_overwrite_earlier_ones() {
    let mut d = Drawing::new(2, 1);
    d.draw_square(Location4::new(0, 0, 2, 1), Color::black());
    d.draw_square(Location4::new(0, 0, 1, 1), Color::new(255, 255, 0, 0));
    assert_eq!(pixel(&d, 0, 0), 0xFF_FF_00_00);
    assert_eq!(pixel(&d, 1, 0), 0xFF_00_00_00);
}

#[test]
fn draw_text_blends_a_glyph_at_its_offset() {
    let mut d = Drawing::new(4, 4);
    // A 1x1 fully covered glyph at offset (1, 2) from the paragraph origin.
    let g = GlyphImage::new(1, 2, 1, 1, false, vec![255]);
    d.draw_text(&vec![g], Location4::new(1, 0, 4, 4), Color::black());
    for py in 0..4 {
        for px in 0..4 {
            let expected = if px == 2 && py == 2 { 0xFF_00_00_00 } else { WHITE };
            assert_eq!(pixel(&d, px, py), expected, "pixel ({px},{py})");
        }
    }
}

#[test]
fn draw_text_skips_control_glyphs_entirely() {
    // A control glyph carries a full-coverage raster, yet produces zero
    // rasterized pixels at its would-be origin.
    let mut d = Drawing::new(4, 4);
    let newline = GlyphImage::new(0, 0, 2, 2, true, vec![255, 255, 255, 255]);
    let visible = GlyphImage::new(2, 0, 1, 1, false, vec![255]);
    d.draw_text(&vec![newline, visible], Location4::new(0, 0, 4, 4), Color::black());
    for py in 0..4 {
        for px in 0..4 {
            let expected = if px == 2 && py == 0 { 0xFF_00_00_00 } else { WHITE };
            assert_eq!(pixel(&d, px, py), expected, "pixel ({px},{py})");
        }
    }
}

#[test]
fn draw_text_clips_glyphs_to_the_surface() {
    let mut d = Drawing::new(2, 2);
    // 3x3 glyph at (-1, -1): only its lower-right corner lands on (0..2)^2.
    let g = GlyphImage::new(-1, -1, 3, 3, false, vec![255; 9]);
    d.draw_text(&vec![g], Location4::new(0, 0, 2, 2), Color::black());
    assert!(d.buf.iter().all(|p| *p == 0xFF_00_00_00));
}

#[test]
fn draw_text_partial_coverage_darkens_toward_the_color() {
    let mut d = Drawing::new(1, 1);
    let g = GlyphImage::new(0, 0, 1, 1, false, vec![128]);
    d.draw_text(&vec![g], Location4::new(0, 0, 1, 1), Color::black());
    assert_eq!(pixel(&d, 0, 0), 0xFF_7F_7F_7F);
}

#[test]
fn draw_text_never_lightens_what_is_under_it() {
    // A fully covered white glyph over a black square leaves it black.
    let mut d = Drawing::new(2, 2);
    d.draw_square(Location4::new(0, 0, 2, 2), Color::black());
    let g = GlyphImage::new(0, 0, 2, 2, false, vec![255, 255, 255, 255]);
    d.draw_text(&vec![g], Location4::new(0, 0, 2, 2), Color::new(255, 255, 255, 255));
    assert!(d.buf.iter().all(|p| *p == 0xFF_00_00_00));
}

#[test]
fn draw_button_in_band_paints_face_and_black_label() {
    let mut d = Drawing::new(10, 10);
    let g = GlyphImage::new(0, 0, 1, 1, false, vec![255]);
    // Label color argument is gray, yet the label always lands black.
    let clicked = d.draw_button(&vec![g], Location4::new(2, 2, 4, 4), Color::new(255, 200, 200, 200));
    assert!(!clicked);
    // Face color on the button's rectangle.
    assert_eq!(pixel(&d, 2, 2), 0xFF_C8_C8_C8);
    assert_eq!(pixel(&d, 5, 5), 0xFF_C8_C8_C8);
    // The glyph lands at the 2-pixel inset from the top-left, in black.
    assert_eq!(pixel(&d, 4, 4), 0xFF_00_00_00);
    // Outside the button the surface stays white.
    assert_eq!(pixel(&d, 7, 7), WHITE);
}

#[test]
fn draw_button_straddling_the_right_edge_is_not_drawn() {
    // x + w == W fails the strict test; nothing is painted.
    let mut d = Drawing::new(10, 10);
    let clicked = d.draw_button(&Vec::new(), Location4::new(6, 2, 4, 4), Color::black());
    assert!(!clicked);
    assert!(d.buf.iter().all(|p| *p == WHITE));
}

#[test]
fn draw_button_one_pixel_inside_the_right_edge_is_drawn() {
    // x + w == W - 1 passes and the face is painted.
    let mut d = Drawing::new(10, 10);
    d.draw_button(&Vec::new(), Location4::new(5, 2, 4, 4), Color::black());
    assert_eq!(pixel(&d, 5, 2), 0xFF_00_00_00);
    assert_eq!(pixel(&d, 8, 5), 0xFF_00_00_00);
    assert_eq!(pixel(&d, 9, 2), WHITE);
}

#[test]
fn draw_button_hit_test_fires_even_when_not_drawn() {
    // Entirely off-screen to the right: fails visibility, but the stored
    // mouse position lies inside the rectangle, so the click still reports.
    let mut d = Drawing::new(8, 8);
    d.process_mouse(3, 3);
    let clicked = d.draw_button(&Vec::new(), Location4::new(2, 2, 100, 4), Color::black());
    assert!(clicked);
    assert!(d.buf.iter().all(|p| *p == WHITE));
}

#[test]
fn draw_button_boundary_mouse_pixel_does_not_click() {
    let mut d = Drawing::new(100, 100);
    // Mouse exactly at (x + w, y): excluded by the strict comparisons.
    d.process_mouse(60, 10);
    assert!(!d.draw_button(&Vec::new(), Location4::new(10, 10, 50, 24), Color::black()));
    // One pixel to the left: included.
    d.process_mouse(59, 10);
    assert!(d.draw_button(&Vec::new(), Location4::new(10, 10, 50, 24), Color::black()));
}

#[test]
fn draw_button_height_band_takes_an_eighth_of_the_height() {
    // Button at y = 8 with h = 9 on a 10-high surface: y + h/8 = 9 < 10,
    // so it is drawn even though its bottom hangs off the surface.
    let mut d = Drawing::new(10, 10);
    d.draw_button(&Vec::new(), Location4::new(0, 8, 4, 9), Color::black());
    assert_eq!(pixel(&d, 0, 8), 0xFF_00_00_00);
    // At y = 10 - that is, y + h/8 = 11 > 10 - nothing is drawn.
    let mut e = Drawing::new(10, 10);
    e.draw_button(&Vec::new(), Location4::new(0, 10, 4, 9), Color::black());
    assert!(e.buf.iter().all(|p| *p == WHITE));
}

#[test]
fn draw_button_height_band_rounds_an_eighth_downward() {
    // A negative height rounds its eighth toward negative infinity:
    // h = -4 makes y + h/8 = 10 - 1 = 9 < 10, so the band test holds even
    // at the surface bottom, and the label lands where its glyph reaches
    // back onto the surface.  The face itself has no extent to paint.
    let mut d = Drawing::new(10, 10);
    let g = GlyphImage::new(0, -5, 1, 1, false, vec![255]);
    d.draw_button(&vec![g], Location4::new(0, 10, 4, -4), Color::black());
    // Label origin is (0 + 2, 10 + 2); the glyph offset (0, -5) puts its
    // pixel at (2, 7).
    assert_eq!(pixel(&d, 2, 7), 0xFF_00_00_00);
    // One row lower the band test no longer holds and nothing is drawn.
    let mut e = Drawing::new(10, 10);
    let h = GlyphImage::new(0, -5, 1, 1, false, vec![255]);
    e.draw_button(&vec![h], Location4::new(0, 11, 4, -4), Color::black());
    assert!(e.buf.iter().all(|p| *p == WHITE));
}
