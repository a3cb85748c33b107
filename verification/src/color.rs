use vstd::prelude::*;

verus! {

/// An ARGB color with four 8-bit channels.
#[derive(Clone, Copy, PartialEq, Eq, Structural, Debug)]
pub struct Color {
    pub a: u8,
    pub r: u8,
    pub g: u8,
    pub b: u8,
}

impl Color {
    pub fn new(a: u8, r: u8, g: u8, b: u8) -> (c: Self)
        ensures
            c.a == a,
            c.r == r,
            c.g == g,
            c.b == b,
    {
        Self { a, r, g, b }
    }

    pub fn black() -> (c: Self)
        ensures
            c.a == 255,
            c.r == 0,
            c.g == 0,
            c.b == 0,
    {
        Self { a: 255, r: 0, g: 0, b: 0 }
    }
}

/// Clamp a channel to [0, 255]; inputs are unsigned, so only the upper bound
/// can bite.
pub open spec fn clamp_255(v: int) -> int {
    if v > 255 {
        255
    } else {
        v
    }
}

/// The packed ARGB32 pixel layout: alpha in the most significant byte, then
/// red, green, blue down to the least significant byte.
pub open spec fn pack_argb(a: int, r: int, g: int, b: int) -> int {
    a * 0x1000000 + r * 0x10000 + g * 0x100 + b
}

/// The alpha channel of a packed ARGB32 pixel.
pub open spec fn chan_a(p: u32) -> int {
    p as int / 0x1000000
}

/// The red channel of a packed ARGB32 pixel.
pub open spec fn chan_r(p: u32) -> int {
    (p as int / 0x10000) % 256
}

/// The green channel of a packed ARGB32 pixel.
pub open spec fn chan_g(p: u32) -> int {
    (p as int / 0x100) % 256
}

/// The blue channel of a packed ARGB32 pixel.
pub open spec fn chan_b(p: u32) -> int {
    p as int % 256
}

/// Packing four in-range channels and reading them back is the identity:
/// the four bytes of the pixel are exactly the four channels.
pub proof fn lemma_pack_channels(a: int, r: int, g: int, b: int)
    requires
        0 <= a < 256,
        0 <= r < 256,
        0 <= g < 256,
        0 <= b < 256,
    ensures
        0 <= pack_argb(a, r, g, b) < 0x100000000,
        chan_a(pack_argb(a, r, g, b) as u32) == a,
        chan_r(pack_argb(a, r, g, b) as u32) == r,
        chan_g(pack_argb(a, r, g, b) as u32) == g,
        chan_b(pack_argb(a, r, g, b) as u32) == b,
{
    let p = pack_argb(a, r, g, b);
    assert(0 <= p < 0x100000000);
    assert(p as u32 == p);
    assert(p / 0x1000000 == a && (p / 0x10000) % 256 == r && (p / 0x100) % 256 == g && p % 256
        == b) by (nonlinear_arith)
        requires
            0 <= a < 256,
            0 <= r < 256,
            0 <= g < 256,
            0 <= b < 256,
            p == a * 0x1000000 + r * 0x10000 + g * 0x100 + b,
    ;
}

/// One color channel of the glyph color laid over the destination channel,
/// weighted by the glyph coverage acting as the source alpha.
pub open spec fn over_channel(dst: int, src: int, cov: int) -> int {
    (src * cov + dst * (255 - cov)) / 255
}

/// The darken blend of one color channel: the coverage-weighted glyph
/// channel, but never above what is already there.
pub open spec fn blend_channel(dst: int, src: int, cov: int) -> int {
    if over_channel(dst, src, cov) < dst {
        over_channel(dst, src, cov)
    } else {
        dst
    }
}

/// The alpha channel after a glyph lands: source-over with the coverage as
/// the source alpha.
pub open spec fn blend_alpha(dst: int, cov: int) -> int {
    dst + ((255 - dst) * cov) / 255
}

/// The pixel after one glyph coverage byte lands on it: each color channel
/// darkened toward the glyph color, the alpha laid over.
pub open spec fn blended_pixel(dst: u32, c: Color, cov: u8) -> u32 {
    pack_argb(
        blend_alpha(chan_a(dst), cov as int),
        blend_channel(chan_r(dst), c.r as int, cov as int),
        blend_channel(chan_g(dst), c.g as int, cov as int),
        blend_channel(chan_b(dst), c.b as int, cov as int),
    ) as u32
}

/// Every channel of a packed pixel is a byte.
pub proof fn lemma_chan_bounds(p: u32)
    ensures
        0 <= chan_a(p) < 256,
        0 <= chan_r(p) < 256,
        0 <= chan_g(p) < 256,
        0 <= chan_b(p) < 256,
{
    assert(0 <= p as int / 0x1000000 < 256 && 0 <= (p as int / 0x10000) % 256 < 256 && 0 <= (
    p as int / 0x100) % 256 < 256 && 0 <= p as int % 256 < 256) by (nonlinear_arith)
        requires
            0 <= (p as int) < 0x100000000,
    ;
}

/// A darkened channel stays a channel, and never rises above the
/// destination.
pub proof fn lemma_blend_channel_bounds(dst: int, src: int, cov: int)
    requires
        0 <= dst < 256,
        0 <= src < 256,
        0 <= cov < 256,
    ensures
        0 <= blend_channel(dst, src, cov) <= dst,
{
    assert(0 <= (src * cov + dst * (255 - cov)) / 255) by (nonlinear_arith)
        requires
            0 <= dst < 256,
            0 <= src < 256,
            0 <= cov < 256,
    ;
}

/// Laying coverage over the alpha channel keeps it a byte and never lowers
/// it.
pub proof fn lemma_blend_alpha_bounds(dst: int, cov: int)
    requires
        0 <= dst < 256,
        0 <= cov < 256,
    ensures
        dst <= blend_alpha(dst, cov) < 256,
{
    assert(0 <= ((255 - dst) * cov) / 255 <= 255 - dst) by (nonlinear_arith)
        requires
            0 <= dst < 256,
            0 <= cov < 256,
    ;
}

/// Glyph pixels only ever darken what is under them, never lighten it,
/// whatever the draw order; the alpha channel can only grow.
pub proof fn lemma_blend_darkens(dst: u32, c: Color, cov: u8)
    ensures
        chan_r(blended_pixel(dst, c, cov)) <= chan_r(dst),
        chan_g(blended_pixel(dst, c, cov)) <= chan_g(dst),
        chan_b(blended_pixel(dst, c, cov)) <= chan_b(dst),
        chan_a(blended_pixel(dst, c, cov)) >= chan_a(dst),
{
    lemma_chan_bounds(dst);
    lemma_blend_alpha_bounds(chan_a(dst), cov as int);
    lemma_blend_channel_bounds(chan_r(dst), c.r as int, cov as int);
    lemma_blend_channel_bounds(chan_g(dst), c.g as int, cov as int);
    lemma_blend_channel_bounds(chan_b(dst), c.b as int, cov as int);
    lemma_pack_channels(
        blend_alpha(chan_a(dst), cov as int),
        blend_channel(chan_r(dst), c.r as int, cov as int),
        blend_channel(chan_g(dst), c.g as int, cov as int),
        blend_channel(chan_b(dst), c.b as int, cov as int),
    );
}

/// Blends one glyph coverage byte into one destination pixel: unpacks the
/// destination, darkens each color channel toward the glyph color weighted
/// by the coverage, lays the coverage over the alpha, and repacks.
pub fn blend_pixel(dst: u32, color: Color, cov: u8) -> (r: u32)
    ensures
        r == blended_pixel(dst, color, cov),
{
    let da: u32 = dst / 0x1000000;
    let dr: u32 = (dst / 0x10000) % 256;
    let dg: u32 = (dst / 0x100) % 256;
    let db: u32 = dst % 256;
    let cv: u32 = cov as u32;
    proof {
        lemma_chan_bounds(dst);
        lemma_blend_alpha_bounds(da as int, cv as int);
        lemma_blend_channel_bounds(dr as int, color.r as int, cv as int);
        lemma_blend_channel_bounds(dg as int, color.g as int, cv as int);
        lemma_blend_channel_bounds(db as int, color.b as int, cv as int);
        assert((255 - da as int) * (cv as int) <= 65025 && (color.r as int) * (cv as int) <= 65025
            && (color.g as int) * (cv as int) <= 65025 && (color.b as int) * (cv as int) <= 65025
            && (dr as int) * (255 - cv as int) <= 65025 && (dg as int) * (255 - cv as int) <= 65025
            && (db as int) * (255 - cv as int) <= 65025) by (nonlinear_arith)
            requires
                (da as int) < 256,
                (dr as int) < 256,
                (dg as int) < 256,
                (db as int) < 256,
                (cv as int) < 256,
                (color.r as int) < 256,
                (color.g as int) < 256,
                (color.b as int) < 256,
        ;
    }
    let na: u32 = da + ((255 - da) * cv) / 255;
    let tr: u32 = ((color.r as u32) * cv + dr * (255 - cv)) / 255;
    let nr: u32 = if tr < dr { tr } else { dr };
    let tg: u32 = ((color.g as u32) * cv + dg * (255 - cv)) / 255;
    let ng: u32 = if tg < dg { tg } else { dg };
    let tb: u32 = ((color.b as u32) * cv + db * (255 - cv)) / 255;
    let nb: u32 = if tb < db { tb } else { db };
    let r: u32 = na * 0x1000000 + nr * 0x10000 + ng * 0x100 + nb;
    proof {
        assert(r == blended_pixel(dst, color, cov));
    }
    r
}

/// Clamps each channel to [0, 255] and packs the four into one 32-bit pixel,
/// alpha : red : green : blue from the most to the least significant byte.
pub fn rgb_to_u32(red: usize, green: usize, blue: usize, alpha: usize) -> (p: u32)
    ensures
        p == pack_argb(clamp_255(alpha as int), clamp_255(red as int), clamp_255(green as int),
            clamp_255(blue as int)),
{
    let r: u32 = if red > 255 { 255 } else { red as u32 };
    let g: u32 = if green > 255 { 255 } else { green as u32 };
    let b: u32 = if blue > 255 { 255 } else { blue as u32 };
    let a: u32 = if alpha > 255 { 255 } else { alpha as u32 };
    let p: u32 = (a << 24u32) | (r << 16u32) | (g << 8u32) | b;
    proof {
        assert(p == a * 0x1000000 + r * 0x10000 + g * 0x100 + b) by (bit_vector)
            requires
                a < 256,
                r < 256,
                g < 256,
                b < 256,
                p == (a << 24u32) | (r << 16u32) | (g << 8u32) | b,
        ;
    }
    p
}

} // verus!
