use vstd::prelude::*;

verus! {

/// One rasterized glyph, as the font shaper hands it back: an offset from the
/// paragraph origin, a coverage raster of `width * height` bytes in row-major
/// order (0 = untouched, 255 = fully covered), and whether the glyph stands
/// for a control character.  Control glyphs are skipped entirely when text is
/// drawn.
pub struct GlyphImage {
    pub x: i32,
    pub y: i32,
    pub width: u32,
    pub height: u32,
    pub is_control: bool,
    pub coverage: Vec<u8>,
}

impl GlyphImage {
    /// A well-formed glyph raster: the coverage buffer holds exactly one byte
    /// per pixel, and each dimension fits a signed 32-bit coordinate.
    pub open spec fn wf(self) -> bool {
        &&& self.coverage@.len() == self.width * self.height
        &&& self.width <= i32::MAX
        &&& self.height <= i32::MAX
    }

    pub fn new(x: i32, y: i32, width: u32, height: u32, is_control: bool, coverage: Vec<u8>) -> (g:
        Self)
        requires
            coverage@.len() == width * height,
            width <= i32::MAX,
            height <= i32::MAX,
        ensures
            g.wf(),
            g.x == x,
            g.y == y,
            g.width == width,
            g.height == height,
            g.is_control == is_control,
            g.coverage@ == coverage@,
    {
        Self { x, y, width, height, is_control, coverage }
    }
}

} // verus!
