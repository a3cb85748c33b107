use msgbox::color::Color;
use msgbox::color::blend_pixel;
use msgbox::color::rgb_to_u32;

#[test]
fn rgb_to_u32_clamps_and_packs() {
    // 300 and 999 clamp to 255, in-range channels pass through:
    // alpha=0xFF, red=0xFF, green=0x00, blue=0x0A.
    assert_eq!(rgb_to_u32(300, 0, 10, 999), 0xFF_FF_00_0A);
}

#[test]
fn rgb_to_u32_in_range_is_identity() {
    assert_eq!(rgb_to_u32(1, 2, 3, 4), 0x04_01_02_03);
    assert_eq!(rgb_to_u32(255, 255, 255, 255), 0xFF_FF_FF_FF);
    assert_eq!(rgb_to_u32(0, 0, 0, 0), 0x00_00_00_00);
}

#[test]
fn rgb_to_u32_clamps_each_channel_independently() {
    assert_eq!(rgb_to_u32(256, 255, 1000, 0), 0x00_FF_FF_FF);
    assert_eq!(rgb_to_u32(0, 9999, 0, 70000), 0xFF_00_FF_00);
}

#[test]
fn color_constructors() {
    let c = Color::new(1, 2, 3, 4);
    assert_eq!(c.a, 1);
    assert_eq!(c.r, 2);
    assert_eq!(c.g, 3);
    assert_eq!(c.b, 4);
    let k = Color::black();
    assert_eq!(k.a, 255);
    assert_eq!(k.r, 0);
    assert_eq!(k.g, 0);
    assert_eq!(k.b, 0);
}

#[test]
fn blend_full_coverage_paints_the_glyph_color() {
    // Full-coverage black over white turns the pixel black.
    assert_eq!(blend_pixel(0xFF_FF_FF_FF, Color::black(), 255), 0xFF_00_00_00);
}

#[test]
fn blend_zero_coverage_leaves_the_pixel_alone() {
    assert_eq!(blend_pixel(0xFF_FF_FF_FF, Color::black(), 0), 0xFF_FF_FF_FF);
    assert_eq!(blend_pixel(0xFF_12_34_56, Color::black(), 0), 0xFF_12_34_56);
}

#[test]
fn blend_never_lightens() {
    // A white glyph over a black pixel leaves it black: glyph pixels only
    // ever darken existing content.
    let white = Color::new(255, 255, 255, 255);
    assert_eq!(blend_pixel(0xFF_00_00_00, white, 255), 0xFF_00_00_00);
    assert_eq!(blend_pixel(0xFF_00_00_00, white, 128), 0xFF_00_00_00);
}

#[test]
fn blend_partial_coverage_darkens_proportionally() {
    // Black at coverage 128 over white: each color channel becomes
    // (255 * (255 - 128)) / 255 = 127; alpha stays 255.
    assert_eq!(blend_pixel(0xFF_FF_FF_FF, Color::black(), 128), 0xFF_7F_7F_7F);
}
