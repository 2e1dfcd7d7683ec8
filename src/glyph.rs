use vstd::prelude::*;

verus! {

/// Advance widths are counted in this many parts of one font unit.
pub const SUBUNITS_PER_FONT_UNIT: u32 = 6;

/// A tab is as wide as this many spaces.
pub const TAB_SIZE: u32 = 4;

/// Where a glyph's pixels are in the texture atlas, and where to draw them.
#[derive(Clone, Copy, Debug, PartialEq, Eq)]
pub struct UvRect {
    /// X/Y offset of the glyph's pixel box from the pen position (unit: pixels).
    pub offset: [i32; 2],
    /// Size of the glyph's pixel box (unit: pixels).
    pub size: [u16; 2],
    /// Top left corner in the texture.
    pub min: [u16; 2],
    /// Bottom right corner in the texture (exclusive).
    pub max: [u16; 2],
}

impl UvRect {
    /// The rectangle with no pixels.
    pub fn nothing() -> (r: UvRect)
        ensures
            r.offset == [0i32, 0i32],
            r.size == [0u16, 0u16],
            r.min == [0u16, 0u16],
            r.max == [0u16, 0u16],
    {
        UvRect { offset: [0, 0], size: [0, 0], min: [0, 0], max: [0, 0] }
    }

    /// Does this rectangle cover no pixels?
    pub fn is_nothing(&self) -> (r: bool)
        ensures
            r == (self.min == self.max),
    {
        let r = self.min[0] == self.max[0] && self.min[1] == self.max[1];
        proof {
            if r {
                assert(self.min =~= self.max);
            }
        }
        r
    }

    /// The rectangle for a glyph whose pixel box starts at `bb_min` and is
    /// `width` by `height` pixels, placed in the atlas at `pos`.
    /// An empty box gives the rectangle with no pixels.
    pub fn from_placement(bb_min: [i32; 2], width: u16, height: u16, pos: [u16; 2]) -> (r: UvRect)
        requires
            pos[0] + width <= u16::MAX,
            pos[1] + height <= u16::MAX,
        ensures
            (width == 0 || height == 0) ==> r == UvRect::nothing_spec(),
            (width != 0 && height != 0) ==> r == (UvRect {
                offset: bb_min,
                size: [width, height],
                min: pos,
                max: [(pos[0] + width) as u16, (pos[1] + height) as u16],
            }),
    {
        if width == 0 || height == 0 {
            UvRect::nothing()
        } else {
            UvRect {
                offset: bb_min,
                size: [width, height],
                min: pos,
                max: [pos[0] + width, pos[1] + height],
            }
        }
    }

    pub open spec fn nothing_spec() -> UvRect {
        UvRect { offset: [0i32, 0i32], size: [0u16, 0u16], min: [0u16, 0u16], max: [0u16, 0u16] }
    }
}

/// What a face knows of one character.
#[derive(Clone, Copy, Debug, PartialEq, Eq, Structural, Hash)]
pub struct GlyphInfo {
    /// The face's glyph id, used for pair kerning. Not unique; 0 means "no
    /// glyph shape".
    pub id: u16,
    /// Advance width in the face's unscaled coordinates, in sixths of a font
    /// unit (see [`SUBUNITS_PER_FONT_UNIT`]).
    pub advance_width_unscaled: u32,
    /// Whether this glyph has any outlines.
    pub visible: bool,
}

impl GlyphInfo {
    /// A zero-width space.
    pub open spec fn default_spec() -> GlyphInfo {
        GlyphInfo { id: 0, advance_width_unscaled: 0, visible: false }
    }
}

impl Default for GlyphInfo {
    /// Basically a zero-width space.
    fn default() -> (r: GlyphInfo)
        ensures
            r == GlyphInfo::default_spec(),
    {
        GlyphInfo { id: 0, advance_width_unscaled: 0, visible: false }
    }
}

/// A glyph drawn at one pixel scale.
#[derive(Clone, Copy, Debug, PartialEq, Eq)]
pub struct GlyphAllocation {
    /// The face's glyph id, used for pair kerning.
    pub id: u16,
    /// Advance width in unscaled sixths of a font unit.
    pub advance_width_unscaled: u32,
    /// The rounded pixel scale the glyph was drawn at.
    pub scale: u32,
    /// Where the glyph's pixels are.
    pub uv_rect: UvRect,
}

impl GlyphAllocation {
    /// The allocation of an invisible glyph: nothing drawn, no width.
    pub open spec fn default_spec() -> GlyphAllocation {
        GlyphAllocation {
            id: 0,
            advance_width_unscaled: 0,
            scale: 0,
            uv_rect: UvRect::nothing_spec(),
        }
    }
}

impl Default for GlyphAllocation {
    fn default() -> (r: GlyphAllocation)
        ensures
            r == GlyphAllocation::default_spec(),
    {
        GlyphAllocation { id: 0, advance_width_unscaled: 0, scale: 0, uv_rect: UvRect::nothing() }
    }
}

/// The tab glyph derived from the space glyph: the space's shape, `TAB_SIZE`
/// spaces wide.
pub open spec fn tab_from_space(space: GlyphInfo) -> GlyphInfo {
    GlyphInfo {
        advance_width_unscaled: (TAB_SIZE * space.advance_width_unscaled) as u32,
        ..space
    }
}

/// The thin-space glyph derived from the space glyph: the space's shape, as
/// wide as a sixth of an em or half a space, whichever is narrower.
/// With advances in sixths of a font unit, a sixth of an em is `units_per_em`.
pub open spec fn thin_space_from_space(space: GlyphInfo, units_per_em: u16) -> GlyphInfo {
    GlyphInfo {
        advance_width_unscaled: if (units_per_em as u32) < space.advance_width_unscaled / 2 {
            units_per_em as u32
        } else {
            space.advance_width_unscaled / 2
        },
        ..space
    }
}

/// The glyph for a character that a face maps to glyph `id` with advance
/// `advance` font units; id 0 means the face does not support the character.
pub open spec fn mapped_glyph(id: u16, advance: u16) -> Option<GlyphInfo> {
    if id == 0 {
        None
    } else {
        Some(
            GlyphInfo {
                id,
                advance_width_unscaled: (SUBUNITS_PER_FONT_UNIT * advance) as u32,
                visible: true,
            },
        )
    }
}

/// The tab glyph for a face whose space glyph is `space`.
pub fn tab_glyph(space: GlyphInfo) -> (r: GlyphInfo)
    requires
        space.advance_width_unscaled <= SUBUNITS_PER_FONT_UNIT * u16::MAX,
    ensures
        r == tab_from_space(space),
{
    GlyphInfo { advance_width_unscaled: TAB_SIZE * space.advance_width_unscaled, ..space }
}

/// The thin-space glyph for a face whose space glyph is `space` and whose em
/// is `units_per_em` font units.
pub fn thin_space_glyph(space: GlyphInfo, units_per_em: u16) -> (r: GlyphInfo)
    ensures
        r == thin_space_from_space(space, units_per_em),
{
    let half = space.advance_width_unscaled / 2;
    let em = units_per_em as u32;
    GlyphInfo { advance_width_unscaled: if em < half { em } else { half }, ..space }
}

/// The glyph for a character that a face maps to glyph `id`, whose advance is
/// `advance` font units.
pub fn glyph_from_mapping(id: u16, advance: u16) -> (r: Option<GlyphInfo>)
    ensures
        r == mapped_glyph(id, advance),
{
    if id == 0 {
        None
    } else {
        Some(GlyphInfo { id, advance_width_unscaled: SUBUNITS_PER_FONT_UNIT * advance as u32, visible: true })
    }
}

} // verus!
