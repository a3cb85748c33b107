use vstd::prelude::*;

use crate::color::Color;
use crate::color::blend_pixel;
use crate::color::blended_pixel;
use crate::color::pack_argb;
use crate::color::rgb_to_u32;
use crate::geom::Location4;
use crate::geom::rects_overlap;
use crate::glyph::GlyphImage;

verus! {

/// The pixel every surface starts from: opaque white.
pub const WHITE_PIXEL: u32 = 0xFFFFFFFF;

/// A drawing surface: an owned ARGB32 pixel buffer in row-major order,
/// the fixed surface extent, and the last observed mouse position.
pub struct Drawing {
    pub buf: Vec<u32>,
    pub width: i32,
    pub height: i32,
    pub mouse_x: i32,
    pub mouse_y: i32,
}

/// The packed pixel a color fills with: its four channels, each already in
/// range, in alpha : red : green : blue order.
pub open spec fn pack_color(c: Color) -> int {
    pack_argb(c.a as int, c.r as int, c.g as int, c.b as int)
}

/// `pack_color`, truncated onto the pixel type it always fits.
pub open spec fn color_pixel(c: Color) -> u32 {
    pack_color(c) as u32
}

/// True when column px, row py lies inside the rectangle at (x, y) with
/// extent (w, h).
pub open spec fn covers(x: int, y: int, w: int, h: int, px: int, py: int) -> bool {
    x <= px < x + w && y <= py < y + h
}

/// The buffer of a `width`-column surface after a solid fill: every pixel
/// inside the rectangle takes the packed color p, every other pixel keeps
/// its value.  Rows and columns outside the buffer are clipped by the
/// row-major indexing itself.
pub open spec fn fill_rect_spec(
    buf: Seq<u32>,
    width: int,
    x: int,
    y: int,
    w: int,
    h: int,
    p: u32,
) -> Seq<u32> {
    Seq::new(
        buf.len(),
        (|i: int|
            if width > 0 && covers(x, y, w, h, i % width, i / width) {
                p
            } else {
                buf[i]
            }),
    )
}

/// The color a button label is drawn in, whatever color the button face has.
pub open spec fn black_color() -> Color {
    Color { a: 255, r: 0, g: 0, b: 0 }
}

/// The buffer after one glyph raster lands with its top-left at (ox, oy):
/// every surface pixel under the raster blends its coverage byte with the
/// darken rule; every other pixel keeps its value.
pub open spec fn blend_glyph_spec(
    buf: Seq<u32>,
    width: int,
    ox: int,
    oy: int,
    gw: int,
    gh: int,
    cov: Seq<u8>,
    c: Color,
) -> Seq<u32> {
    Seq::new(
        buf.len(),
        (|i: int|
            if width > 0 && covers(ox, oy, gw, gh, i % width, i / width) {
                blended_pixel(buf[i], c, cov[(i / width - oy) * gw + (i % width - ox)])
            } else {
                buf[i]
            }),
    )
}

/// One glyph of a text draw: a control glyph is skipped outright, with no
/// pixel writes at all; any other glyph blends its raster at its offset from
/// the paragraph origin (lx, ly).
pub open spec fn draw_glyph_step(
    buf: Seq<u32>,
    width: int,
    lx: int,
    ly: int,
    c: Color,
    g: GlyphImage,
) -> Seq<u32> {
    if g.is_control {
        buf
    } else {
        blend_glyph_spec(
            buf,
            width,
            lx + g.x,
            ly + g.y,
            g.width as int,
            g.height as int,
            g.coverage@,
            c,
        )
    }
}

/// The buffer after a whole run of glyphs lands, first to last.
pub open spec fn draw_glyphs_spec(
    buf: Seq<u32>,
    width: int,
    lx: int,
    ly: int,
    c: Color,
    gs: Seq<GlyphImage>,
) -> Seq<u32>
    decreases gs.len(),
{
    if gs.len() == 0 {
        buf
    } else {
        draw_glyph_step(
            draw_glyphs_spec(buf, width, lx, ly, c, gs.drop_last()),
            width,
            lx,
            ly,
            c,
            gs.last(),
        )
    }
}

/// The visibility band of `draw_button`: the right edge must lie strictly
/// inside the surface width, most of the button's height must start above
/// the surface bottom, and its bottom edge must lie strictly below the
/// surface top.  The x test wants full horizontal containment while the y
/// tests accept a partly visible button; that asymmetry is part of the
/// operation's behavior.  `bh / 8` rounds toward negative infinity, the way
/// the comparison behaves when the eighth of the height is taken exactly.
pub open spec fn button_visible(w: int, h: int, x: int, y: int, bw: int, bh: int) -> bool {
    w > x + bw && h > y + bh / 8 && 0 < y + bh
}

/// Drawing a run of glyphs never changes how many pixels the buffer holds.
pub proof fn lemma_draw_glyphs_len(
    buf: Seq<u32>,
    width: int,
    lx: int,
    ly: int,
    c: Color,
    gs: Seq<GlyphImage>,
)
    ensures
        draw_glyphs_spec(buf, width, lx, ly, c, gs).len() == buf.len(),
    decreases gs.len(),
{
    if gs.len() > 0 {
        lemma_draw_glyphs_len(buf, width, lx, ly, c, gs.drop_last());
    }
}

/// Text never lightens the surface: whatever run of glyphs lands, and in
/// whatever order, every color channel of every pixel can only go down,
/// and the alpha channel can only go up.
pub proof fn lemma_draw_glyphs_only_darken(
    buf: Seq<u32>,
    width: int,
    lx: int,
    ly: int,
    c: Color,
    gs: Seq<GlyphImage>,
    i: int,
)
    requires
        0 <= i < buf.len(),
    ensures
        crate::color::chan_r(draw_glyphs_spec(buf, width, lx, ly, c, gs)[i])
            <= crate::color::chan_r(buf[i]),
        crate::color::chan_g(draw_glyphs_spec(buf, width, lx, ly, c, gs)[i])
            <= crate::color::chan_g(buf[i]),
        crate::color::chan_b(draw_glyphs_spec(buf, width, lx, ly, c, gs)[i])
            <= crate::color::chan_b(buf[i]),
        crate::color::chan_a(draw_glyphs_spec(buf, width, lx, ly, c, gs)[i])
            >= crate::color::chan_a(buf[i]),
    decreases gs.len(),
{
    if gs.len() > 0 {
        let prev = draw_glyphs_spec(buf, width, lx, ly, c, gs.drop_last());
        lemma_draw_glyphs_len(buf, width, lx, ly, c, gs.drop_last());
        lemma_draw_glyphs_only_darken(buf, width, lx, ly, c, gs.drop_last(), i);
        let g = gs.last();
        if !g.is_control {
            let cov = g.coverage@[(i / width - (ly + g.y)) * (g.width as int) + (i % width - (lx
                + g.x))];
            crate::color::lemma_blend_darkens(prev[i], c, cov);
        }
    }
}

/// A control glyph in a text run leaves the buffer exactly as if the glyph
/// were not in the run at all: no pixel write happens at its would-be
/// position, whatever coverage its raster carries.
pub proof fn lemma_control_glyph_ignored(
    buf: Seq<u32>,
    width: int,
    lx: int,
    ly: int,
    c: Color,
    gs: Seq<GlyphImage>,
    k: int,
)
    requires
        0 <= k < gs.len(),
        gs[k].is_control,
    ensures
        draw_glyphs_spec(buf, width, lx, ly, c, gs) == draw_glyphs_spec(
            buf,
            width,
            lx,
            ly,
            c,
            gs.remove(k),
        ),
    decreases gs.len(),
{
    if k == gs.len() - 1 {
        assert(gs.remove(k) =~= gs.drop_last());
    } else {
        lemma_control_glyph_ignored(buf, width, lx, ly, c, gs.drop_last(), k);
        assert(gs.remove(k).drop_last() =~= gs.drop_last().remove(k));
        assert(gs.remove(k).last() == gs.last());
    }
}

/// The pixels a row-by-row fill of the clipped column range [x0, x1) has
/// reached when it stands at row pyc, column pxc: every full row above pyc,
/// and the columns before pxc in row pyc itself.
spec fn filled_upto(w: int, x0: int, x1: int, y0: int, pyc: int, pxc: int, i: int) -> bool {
    w > 0 && {
        let qx = i % w;
        let qy = i / w;
        x0 <= qx < x1 && y0 <= qy && (qy < pyc || (qy == pyc && qx < pxc))
    }
}

/// The value a glyph blit leaves at buffer index i: the pixel that was
/// there, blended with the coverage byte that the glyph raster holds for
/// that row and column.
spec fn glyph_target(
    buf0: Seq<u32>,
    w: int,
    ox: int,
    oy: int,
    gw: int,
    cov: Seq<u8>,
    c: Color,
    i: int,
) -> u32 {
    blended_pixel(buf0[i], c, cov[(i / w - oy) * gw + (i % w - ox)])
}

/// Decomposing a row-major index: for a column inside the row width, the
/// index py * width + px splits back into exactly that row and column.
proof fn lemma_index_rowcol(width: int, px: int, py: int)
    requires
        0 < width,
        0 <= px < width,
    ensures
        (py * width + px) / width == py,
        (py * width + px) % width == px,
{
    vstd::arithmetic::div_mod::lemma_fundamental_div_mod_converse(
        py * width + px,
        width,
        py,
        px,
    );
}

/// Every index of a width-by-height buffer names one pixel: its column is in
/// range, its row is in range, and row and column rebuild the index.
proof fn lemma_index_bounds(width: int, height: int, i: int)
    requires
        0 < width,
        0 <= i < width * height,
    ensures
        0 <= i % width < width,
        0 <= i / width < height,
        i == (i / width) * width + (i % width),
{
    vstd::arithmetic::div_mod::lemma_fundamental_div_mod(i, width);
    vstd::arithmetic::div_mod::lemma_mod_bound(i, width);
    let q = i / width;
    let r = i % width;
    assert(0 <= q && q < height && i == q * width + r) by (nonlinear_arith)
        requires
            0 < width,
            0 <= i < width * height,
            i == width * q + r,
            0 <= r < width,
    ;
}

impl Drawing {
    /// A well-formed surface: non-negative extent and one buffer entry per
    /// pixel.
    pub open spec fn wf(self) -> bool {
        &&& 0 <= self.width
        &&& 0 <= self.height
        &&& self.buf@.len() == self.width * self.height
    }

    /// Allocates a w-by-h surface with every pixel opaque white and the
    /// mouse position at the origin.
    pub fn new(w: i32, h: i32) -> (d: Self)
        requires
            0 <= w,
            0 <= h,
            w * h <= usize::MAX,
        ensures
            d.wf(),
            d.width == w,
            d.height == h,
            d.mouse_x == 0,
            d.mouse_y == 0,
            forall|i: int| 0 <= i < d.buf@.len() ==> d.buf@[i] == WHITE_PIXEL,
    {
        let n: usize = (w as usize) * (h as usize);
        let mut buf: Vec<u32> = Vec::new();
        let mut i: usize = 0;
        while i < n
            invariant
                i <= n,
                buf@.len() == i,
                forall|j: int| 0 <= j < i ==> buf@[j] == WHITE_PIXEL,
            decreases n - i,
        {
            buf.push(WHITE_PIXEL);
            i = i + 1;
        }
        Self { buf, width: w, height: h, mouse_x: 0, mouse_y: 0 }
    }

    /// Overwrites the stored mouse position; nothing else changes.
    pub fn process_mouse(&mut self, x: i32, y: i32)
        ensures
            final(self).mouse_x == x,
            final(self).mouse_y == y,
            final(self).buf == old(self).buf,
            final(self).width == old(self).width,
            final(self).height == old(self).height,
    {
        self.mouse_x = x;
        self.mouse_y = y;
    }

    /// The axis-aligned overlap test between two rectangles, strict on all
    /// four half-plane comparisons.
    pub fn check_click(
        &self,
        x1: i32,
        y1: i32,
        w1: i32,
        h1: i32,
        x2: i32,
        y2: i32,
        w2: i32,
        h2: i32,
    ) -> (r: bool)
        ensures
            r == rects_overlap(
                x1 as int,
                y1 as int,
                w1 as int,
                h1 as int,
                x2 as int,
                y2 as int,
                w2 as int,
                h2 as int,
            ),
    {
        (x1 as i64) < (x2 as i64) + (w2 as i64) && (x2 as i64) < (x1 as i64) + (w1 as i64) && (
        y1 as i64) < (y2 as i64) + (h2 as i64) && (y2 as i64) < (y1 as i64) + (h1 as i64)
    }

    /// Fills the rectangle with a solid, non-blended color: every covered
    /// pixel inside the surface is overwritten, everything outside the
    /// rectangle or outside the surface is untouched.
    pub fn draw_square(&mut self, location: Location4, color: Color)
        requires
            old(self).wf(),
        ensures
            final(self).wf(),
            final(self).width == old(self).width,
            final(self).height == old(self).height,
            final(self).mouse_x == old(self).mouse_x,
            final(self).mouse_y == old(self).mouse_y,
            final(self).buf@ == fill_rect_spec(
                old(self).buf@,
                old(self).width as int,
                location.x as int,
                location.y as int,
                location.w as int,
                location.h as int,
                color_pixel(color),
            ),
    {
        let p: u32 = rgb_to_u32(
            color.r as usize,
            color.g as usize,
            color.b as usize,
            color.a as usize,
        );
        proof {
            crate::color::lemma_pack_channels(
                color.a as int,
                color.r as int,
                color.g as int,
                color.b as int,
            );
            assert(p == color_pixel(color));
        }
        let w64: i64 = self.width as i64;
        let h64: i64 = self.height as i64;
        let len: usize = self.buf.len();
        let rx: i64 = location.x as i64;
        let ry: i64 = location.y as i64;
        let rw: i64 = location.w as i64;
        let rh: i64 = location.h as i64;
        let x0: i64 = if rx > 0 { rx } else { 0 };
        let xe: i64 = rx + rw;
        let x1: i64 = if xe < w64 { xe } else { w64 };
        let y0: i64 = if ry > 0 { ry } else { 0 };
        let ye: i64 = ry + rh;
        let y1: i64 = if ye < h64 { ye } else { h64 };
        let ghost buf0 = self.buf@;
        let ghost gw = self.width as int;
        let ghost gh = self.height as int;
        let mut py: i64 = y0;
        while py < y1
            invariant
                self.wf(),
                self.width == w64,
                self.height == h64,
                self.mouse_x == old(self).mouse_x,
                self.mouse_y == old(self).mouse_y,
                gw == w64 as int,
                gh == h64 as int,
                len == self.buf@.len(),
                self.buf@.len() == buf0.len(),
                0 <= y0,
                0 <= x0,
                y1 <= gh,
                x1 <= gw,
                gw < 0x80000000,
                gh < 0x80000000,
                y0 <= py,
                py <= y1 || py == y0,
                forall|i: int|
                    0 <= i < buf0.len() ==> self.buf@[i] == (if filled_upto(
                        gw,
                        x0 as int,
                        x1 as int,
                        y0 as int,
                        py as int,
                        x0 as int,
                        i,
                    ) {
                        p
                    } else {
                        buf0[i]
                    }),
            decreases y1 - py,
        {
            let mut px: i64 = x0;
            while px < x1
                invariant
                    self.wf(),
                    self.width == w64,
                    self.height == h64,
                    self.mouse_x == old(self).mouse_x,
                    self.mouse_y == old(self).mouse_y,
                    gw == w64 as int,
                    gh == h64 as int,
                    len == self.buf@.len(),
                    self.buf@.len() == buf0.len(),
                    0 <= y0,
                    y1 <= gh,
                    x1 <= gw,
                    gw < 0x80000000,
                    gh < 0x80000000,
                    y0 <= py,
                    py < y1,
                    0 <= x0,
                    x0 <= px,
                    px <= x1 || px == x0,
                    forall|i: int|
                        0 <= i < buf0.len() ==> self.buf@[i] == (if filled_upto(
                            gw,
                            x0 as int,
                            x1 as int,
                            y0 as int,
                            py as int,
                            px as int,
                            i,
                        ) {
                            p
                        } else {
                            buf0[i]
                        }),
                decreases x1 - px,
            {
                proof {
                    assert(py * gw + px < gw * gh && 0 <= py * gw + px && py * gw
                        <= 0x4000000000000000) by (nonlinear_arith)
                        requires
                            0 < gw < 0x80000000,
                            0 <= py < gh,
                            gh < 0x80000000,
                            0 <= px < gw,
                    ;
                    assert(gw * gh == len as int);
                    assert(py * gw == py * (w64 as int));
                }
                let idx: usize = (py * w64 + px) as usize;
                self.buf.set(idx, p);
                proof {
                    lemma_index_rowcol(gw, px as int, py as int);
                    assert forall|i: int| 0 <= i < buf0.len() implies self.buf@[i] == (if filled_upto(
                        gw,
                        x0 as int,
                        x1 as int,
                        y0 as int,
                        py as int,
                        px + 1 as int,
                        i,
                    ) {
                        p
                    } else {
                        buf0[i]
                    }) by {
                        lemma_index_bounds(gw, gh, i);
                    }
                }
                px = px + 1;
            }
            proof {
                assert forall|i: int| 0 <= i < buf0.len() implies self.buf@[i] == (if filled_upto(
                    gw,
                    x0 as int,
                    x1 as int,
                    y0 as int,
                    py + 1 as int,
                    x0 as int,
                    i,
                ) {
                    p
                } else {
                    buf0[i]
                }) by {
                    if gw > 0 {
                        lemma_index_bounds(gw, gh, i);
                    }
                }
            }
            py = py + 1;
        }
        proof {
            let target = fill_rect_spec(
                buf0,
                gw,
                location.x as int,
                location.y as int,
                location.w as int,
                location.h as int,
                p,
            );
            assert forall|i: int| 0 <= i < buf0.len() implies self.buf@[i] == target[i] by {
                if gw > 0 {
                    lemma_index_bounds(gw, gh, i);
                }
            }
            assert(self.buf@ =~= target);
        }
    }

    /// Blends one glyph raster into the buffer at (lx + g.x, ly + g.y),
    /// clipped to the surface, one coverage byte per covered pixel.
    fn blend_glyph(&mut self, g: &GlyphImage, lx: i64, ly: i64, color: Color)
        requires
            old(self).wf(),
            g.wf(),
            -0x100000000 <= lx <= 0x100000000,
            -0x100000000 <= ly <= 0x100000000,
        ensures
            final(self).wf(),
            final(self).width == old(self).width,
            final(self).height == old(self).height,
            final(self).mouse_x == old(self).mouse_x,
            final(self).mouse_y == old(self).mouse_y,
            final(self).buf@ == blend_glyph_spec(
                old(self).buf@,
                old(self).width as int,
                lx + g.x,
                ly + g.y,
                g.width as int,
                g.height as int,
                g.coverage@,
                color,
            ),
    {
        let w64: i64 = self.width as i64;
        let h64: i64 = self.height as i64;
        let len: usize = self.buf.len();
        let ox: i64 = lx + (g.x as i64);
        let oy: i64 = ly + (g.y as i64);
        let gwid: i64 = g.width as i64;
        let ghei: i64 = g.height as i64;
        let x0: i64 = if ox > 0 { ox } else { 0 };
        let xe: i64 = ox + gwid;
        let x1: i64 = if xe < w64 { xe } else { w64 };
        let y0: i64 = if oy > 0 { oy } else { 0 };
        let ye: i64 = oy + ghei;
        let y1: i64 = if ye < h64 { ye } else { h64 };
        let ghost buf0 = self.buf@;
        let ghost gw = self.width as int;
        let ghost gh = self.height as int;
        let mut py: i64 = y0;
        while py < y1
            invariant
                self.wf(),
                g.wf(),
                self.width == w64,
                self.height == h64,
                self.mouse_x == old(self).mouse_x,
                self.mouse_y == old(self).mouse_y,
                gw == w64 as int,
                gh == h64 as int,
                len == self.buf@.len(),
                self.buf@.len() == buf0.len(),
                gwid == g.width as int,
                ghei == g.height as int,
                0 <= y0,
                0 <= x0,
                ox <= x0,
                oy <= y0,
                x1 <= ox + gwid,
                y1 <= oy + ghei,
                y1 <= gh,
                x1 <= gw,
                gw < 0x80000000,
                gh < 0x80000000,
                y0 <= py,
                py <= y1 || py == y0,
                forall|i: int|
                    0 <= i < buf0.len() ==> self.buf@[i] == (if filled_upto(
                        gw,
                        x0 as int,
                        x1 as int,
                        y0 as int,
                        py as int,
                        x0 as int,
                        i,
                    ) {
                        glyph_target(
                            buf0,
                            gw,
                            ox as int,
                            oy as int,
                            gwid as int,
                            g.coverage@,
                            color,
                            i,
                        )
                    } else {
                        buf0[i]
                    }),
            decreases y1 - py,
        {
            let mut px: i64 = x0;
            while px < x1
                invariant
                    self.wf(),
                    g.wf(),
                    self.width == w64,
                    self.height == h64,
                    self.mouse_x == old(self).mouse_x,
                    self.mouse_y == old(self).mouse_y,
                    gw == w64 as int,
                    gh == h64 as int,
                    len == self.buf@.len(),
                    self.buf@.len() == buf0.len(),
                    gwid == g.width as int,
                    ghei == g.height as int,
                    0 <= y0,
                    0 <= x0,
                    ox <= x0,
                    oy <= y0,
                    x1 <= ox + gwid,
                    y1 <= oy + ghei,
                    y1 <= gh,
                    x1 <= gw,
                    gw < 0x80000000,
                    gh < 0x80000000,
                    y0 <= py,
                    py < y1,
                    x0 <= px,
                    px <= x1 || px == x0,
                    forall|i: int|
                        0 <= i < buf0.len() ==> self.buf@[i] == (if filled_upto(
                            gw,
                            x0 as int,
                            x1 as int,
                            y0 as int,
                            py as int,
                            px as int,
                            i,
                        ) {
                            glyph_target(
                                buf0,
                                gw,
                                ox as int,
                                oy as int,
                                gwid as int,
                                g.coverage@,
                                color,
                                i,
                            )
                        } else {
                            buf0[i]
                        }),
                decreases x1 - px,
            {
                proof {
                    assert(py * gw + px < gw * gh && 0 <= py * gw + px && py * gw
                        <= 0x4000000000000000) by (nonlinear_arith)
                        requires
                            0 < gw < 0x80000000,
                            0 <= py < gh,
                            gh < 0x80000000,
                            0 <= px < gw,
                    ;
                    assert(gw * gh == len as int);
                    assert((py - oy) * gwid + (px - ox) < gwid * ghei && 0 <= (py - oy) * gwid + (px
                        - ox) && (py - oy) * gwid <= 0x4000000000000000) by (nonlinear_arith)
                        requires
                            0 < gwid < 0x80000000,
                            0 <= py - oy < ghei,
                            ghei < 0x80000000,
                            0 <= px - ox < gwid,
                    ;
                    assert(gwid * ghei == g.coverage@.len() as int);
                }
                let clen: usize = g.coverage.len();
                proof {
                    assert((py - oy) * gwid + (px - ox) < clen as int);
                }
                let idx: usize = (py * w64 + px) as usize;
                let cix: usize = ((py - oy) * gwid + (px - ox)) as usize;
                let cb: u8 = g.coverage[cix];
                let dstp: u32 = self.buf[idx];
                proof {
                    lemma_index_rowcol(gw, px as int, py as int);
                }
                let np: u32 = blend_pixel(dstp, color, cb);
                self.buf.set(idx, np);
                proof {
                    assert forall|i: int| 0 <= i < buf0.len() implies self.buf@[i] == (if filled_upto(
                        gw,
                        x0 as int,
                        x1 as int,
                        y0 as int,
                        py as int,
                        px + 1 as int,
                        i,
                    ) {
                        glyph_target(
                            buf0,
                            gw,
                            ox as int,
                            oy as int,
                            gwid as int,
                            g.coverage@,
                            color,
                            i,
                        )
                    } else {
                        buf0[i]
                    }) by {
                        lemma_index_bounds(gw, gh, i);
                    }
                }
                px = px + 1;
            }
            proof {
                assert forall|i: int| 0 <= i < buf0.len() implies self.buf@[i] == (if filled_upto(
                    gw,
                    x0 as int,
                    x1 as int,
                    y0 as int,
                    py + 1 as int,
                    x0 as int,
                    i,
                ) {
                    glyph_target(
                        buf0,
                        gw,
                        ox as int,
                        oy as int,
                        gwid as int,
                        g.coverage@,
                        color,
                        i,
                    )
                } else {
                    buf0[i]
                }) by {
                    if gw > 0 {
                        lemma_index_bounds(gw, gh, i);
                    }
                }
            }
            py = py + 1;
        }
        proof {
            let target = blend_glyph_spec(
                buf0,
                gw,
                ox as int,
                oy as int,
                gwid as int,
                ghei as int,
                g.coverage@,
                color,
            );
            assert forall|i: int| 0 <= i < buf0.len() implies self.buf@[i] == target[i] by {
                if gw > 0 {
                    lemma_index_bounds(gw, gh, i);
                }
            }
            assert(self.buf@ =~= target);
        }
    }

    /// Lands every non-control glyph of a laid-out run at the paragraph
    /// origin (lx, ly), in order.
    fn draw_glyphs_at(&mut self, glyphs: &Vec<GlyphImage>, lx: i64, ly: i64, color: Color)
        requires
            old(self).wf(),
            forall|k: int| 0 <= k < glyphs@.len() ==> (#[trigger] glyphs@[k]).wf(),
            -0x100000000 <= lx <= 0x100000000,
            -0x100000000 <= ly <= 0x100000000,
        ensures
            final(self).wf(),
            final(self).width == old(self).width,
            final(self).height == old(self).height,
            final(self).mouse_x == old(self).mouse_x,
            final(self).mouse_y == old(self).mouse_y,
            final(self).buf@ == draw_glyphs_spec(
                old(self).buf@,
                old(self).width as int,
                lx as int,
                ly as int,
                color,
                glyphs@,
            ),
    {
        let ghost buf0 = self.buf@;
        let ghost gw = self.width as int;
        let n: usize = glyphs.len();
        let mut k: usize = 0;
        while k < n
            invariant
                self.wf(),
                self.width as int == gw,
                self.height == old(self).height,
                self.mouse_x == old(self).mouse_x,
                self.mouse_y == old(self).mouse_y,
                n == glyphs@.len(),
                k <= n,
                forall|j: int| 0 <= j < glyphs@.len() ==> (#[trigger] glyphs@[j]).wf(),
                -0x100000000 <= lx <= 0x100000000,
                -0x100000000 <= ly <= 0x100000000,
                self.buf@ == draw_glyphs_spec(buf0, gw, lx as int, ly as int, color, glyphs@.take(
                    k as int)),
            decreases n - k,
        {
            let g = &glyphs[k];
            if !g.is_control {
                self.blend_glyph(g, lx, ly, color);
            }
            proof {
                let pre = glyphs@.take(k as int);
                let cur = glyphs@.take(k + 1 as int);
                assert(cur.drop_last() =~= pre);
                assert(cur.last() == glyphs@[k as int]);
                assert(draw_glyphs_spec(buf0, gw, lx as int, ly as int, color, cur)
                    == draw_glyph_step(
                    draw_glyphs_spec(buf0, gw, lx as int, ly as int, color, pre),
                    gw,
                    lx as int,
                    ly as int,
                    color,
                    glyphs@[k as int],
                ));
            }
            k = k + 1;
        }
        proof {
            assert(glyphs@.take(n as int) =~= glyphs@);
        }
    }

    /// Draws a laid-out run of glyphs as a left-aligned paragraph whose
    /// origin is the rectangle's top-left corner.  The rectangle's extent
    /// bounds the layout, which happens before the glyphs reach the surface;
    /// here every non-control glyph lands at its offset from the origin,
    /// and control glyphs leave no pixel behind.
    pub fn draw_text(&mut self, glyphs: &Vec<GlyphImage>, location: Location4, color: Color)
        requires
            old(self).wf(),
            forall|k: int| 0 <= k < glyphs@.len() ==> (#[trigger] glyphs@[k]).wf(),
        ensures
            final(self).wf(),
            final(self).width == old(self).width,
            final(self).height == old(self).height,
            final(self).mouse_x == old(self).mouse_x,
            final(self).mouse_y == old(self).mouse_y,
            final(self).buf@ == draw_glyphs_spec(
                old(self).buf@,
                old(self).width as int,
                location.x as int,
                location.y as int,
                color,
                glyphs@,
            ),
    {
        self.draw_glyphs_at(glyphs, location.x as i64, location.y as i64, color);
    }

    /// Draws the button and reports whether the mouse is over it.  The face
    /// and its label (black, inset two pixels from the top-left corner) are
    /// drawn only when the button lies in the visibility band; the hit test
    /// against the stored mouse position, taken as a 1-by-1 rectangle, runs
    /// either way, so a button that was never drawn can still report a
    /// click.
    pub fn draw_button(&mut self, glyphs: &Vec<GlyphImage>, location: Location4, color: Color) -> (
        clicked: bool)
        requires
            old(self).wf(),
            forall|k: int| 0 <= k < glyphs@.len() ==> (#[trigger] glyphs@[k]).wf(),
        ensures
            final(self).wf(),
            final(self).width == old(self).width,
            final(self).height == old(self).height,
            final(self).mouse_x == old(self).mouse_x,
            final(self).mouse_y == old(self).mouse_y,
            clicked == rects_overlap(
                location.x as int,
                location.y as int,
                location.w as int,
                location.h as int,
                old(self).mouse_x as int,
                old(self).mouse_y as int,
                1,
                1,
            ),
            button_visible(
                old(self).width as int,
                old(self).height as int,
                location.x as int,
                location.y as int,
                location.w as int,
                location.h as int,
            ) ==> final(self).buf@ == draw_glyphs_spec(
                fill_rect_spec(
                    old(self).buf@,
                    old(self).width as int,
                    location.x as int,
                    location.y as int,
                    location.w as int,
                    location.h as int,
                    color_pixel(color),
                ),
                old(self).width as int,
                location.x + 2,
                location.y + 2,
                black_color(),
                glyphs@,
            ),
            !button_visible(
                old(self).width as int,
                old(self).height as int,
                location.x as int,
                location.y as int,
                location.w as int,
                location.h as int,
            ) ==> final(self).buf@ == old(self).buf@,
    {
        let w64: i64 = self.width as i64;
        let h64: i64 = self.height as i64;
        let rx: i64 = location.x as i64;
        let ry: i64 = location.y as i64;
        let rw: i64 = location.w as i64;
        let rh: i64 = location.h as i64;
        let d8: i64 = if rh >= 0 {
            ((rh as u64) / 8) as i64
        } else {
            -(((((-rh) as u64) + 7) / 8) as i64)
        };
        proof {
            assert(d8 == rh as int / 8) by (nonlinear_arith)
                requires
                    -0x80000000 <= (rh as int) < 0x80000000,
                    d8 as int == (if rh as int >= 0 {
                        (rh as int) / 8
                    } else {
                        -((-(rh as int) + 7) / 8)
                    }),
            ;
        }
        let vis: bool = w64 > rx + rw && h64 > ry + d8 && 0 < ry + rh;
        if vis {
            self.draw_square(location, color);
            self.draw_glyphs_at(glyphs, rx + 2, ry + 2, Color::black());
        }
        self.check_click(
            location.x,
            location.y,
            location.w,
            location.h,
            self.mouse_x,
            self.mouse_y,
            1,
            1,
        )
    }
}

} // verus!
