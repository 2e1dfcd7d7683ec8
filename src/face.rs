use vstd::prelude::*;
use crate::cache::{AllocCache, AllocKey, CharMap};
use crate::chars::{ignore_character, invisible_char, is_ignored_char, is_invisible_char};
use crate::glyph::{
    GlyphAllocation, GlyphInfo, SUBUNITS_PER_FONT_UNIT, UvRect, glyph_from_mapping, mapped_glyph,
    tab_from_space, tab_glyph, thin_space_from_space, thin_space_glyph,
};

verus! {

/// An outline font as the caches see it. Its answers are taken as they come:
/// nothing here is assumed of them but their types.
pub trait FaceSource {
    /// The glyph the face maps `c` to; 0 when it maps none.
    fn glyph_id(&self, c: char) -> u16;

    /// The unscaled advance width of glyph `id`, in font units.
    fn h_advance_unscaled(&self, id: u16) -> u16;

    /// The size of the em in font units, if the face states one.
    fn units_per_em(&self) -> Option<u16>;

    /// Every character the face maps, in no particular order.
    fn codepoints(&self) -> Vec<char>;
}

#[verifier::external_type_specification]
#[verifier::external_body]
pub struct ExFontArc(ab_glyph::FontArc);

/// Relies on ab_glyph::Font::glyph_id: the id of the glyph for `c`, 0 where
/// the face has none.
#[verifier::external_body]
fn arc_glyph_id(font: &ab_glyph::FontArc, c: char) -> u16 {
    ab_glyph::Font::glyph_id(font, c).0
}

/// Relies on ab_glyph::Font::h_advance_unscaled, which for these faces returns
/// the table's 16-bit advance (0 when it has none) as a float.
#[verifier::external_body]
fn arc_h_advance_unscaled(font: &ab_glyph::FontArc, id: u16) -> u16 {
    ab_glyph::Font::h_advance_unscaled(font, ab_glyph::GlyphId(id)) as u16
}

/// Relies on ab_glyph::Font::units_per_em, the face's 16-bit units per em as a
/// float.
#[verifier::external_body]
fn arc_units_per_em(font: &ab_glyph::FontArc) -> Option<u16> {
    ab_glyph::Font::units_per_em(font).map(|u| u as u16)
}

/// Relies on ab_glyph::Font::codepoint_ids, the (glyph, character) pairs of the
/// face's character map; only the characters are kept.
#[verifier::external_body]
fn arc_codepoints(font: &ab_glyph::FontArc) -> Vec<char> {
    ab_glyph::Font::codepoint_ids(font).map(|(_, c)| c).collect()
}

impl FaceSource for ab_glyph::FontArc {
    fn glyph_id(&self, c: char) -> u16 {
        arc_glyph_id(self, c)
    }

    fn h_advance_unscaled(&self, id: u16) -> u16 {
        arc_h_advance_unscaled(self, id)
    }

    fn units_per_em(&self) -> Option<u16> {
        arc_units_per_em(self)
    }

    fn codepoints(&self) -> Vec<char> {
        arc_codepoints(self)
    }
}

/// Characters whose glyph is derived from the space glyph.
pub open spec fn is_derived_from_space(c: char) -> bool {
    c == '\t' || c == '\u{2009}'
}

/// The glyph derived from the space glyph for tab or thin space.
pub open spec fn derived_glyph(c: char, space: GlyphInfo, units_per_em: u16) -> GlyphInfo {
    if c == '\t' {
        tab_from_space(space)
    } else {
        thin_space_from_space(space, units_per_em)
    }
}

/// How one query of character `c` changes the glyph cache of a face named
/// `name` with an em of `units_per_em` font units, from `before` to `after`,
/// and what it returns.
pub open spec fn resolve_post(
    name: Seq<char>,
    units_per_em: u16,
    c: char,
    before: Map<char, GlyphInfo>,
    r: Option<GlyphInfo>,
    after: Map<char, GlyphInfo>,
) -> bool {
    if before.contains_key(c) {
        // Cached: returned as stored.
        r == Some(before[c]) && after == before
    } else if is_ignored_char(name, c) {
        r == None::<GlyphInfo> && after == before
    } else if is_derived_from_space(c) && after.contains_key(' ') {
        // Tab and thin space follow the space glyph, resolved first if need be.
        &&& r == Some(derived_glyph(c, after[' '], units_per_em))
        &&& before.contains_key(' ') ==> before[' '] == after[' ']
        &&& !before.contains_key(' ') ==> exists|id: u16, advance: u16|
            Some(after[' ']) == mapped_glyph(id, advance)
        &&& after == before.insert(' ', after[' ']).insert(c, derived_glyph(c, after[' '], units_per_em))
    } else if is_invisible_char(c) {
        r == Some(GlyphInfo::default_spec()) && after == before.insert(c, GlyphInfo::default_spec())
    } else {
        // Whatever the face maps `c` to.
        &&& exists|id: u16, advance: u16| r == mapped_glyph(id, advance)
        &&& match r {
            Some(g) => after == before.insert(c, g),
            None => after == before,
        }
    }
}

/// One font face with its glyph caches.
/// The interface uses points as the unit for everything.
pub struct FontImpl<F> {
    name: String,
    face: F,
    units_per_em: u16,
    glyph_info_cache: CharMap<GlyphInfo>,
    glyph_alloc_cache: AllocCache,
}

impl<F: FaceSource> FontImpl<F> {
    /// The face's name.
    pub closed spec fn name_spec(&self) -> Seq<char> {
        self.name@
    }

    /// The size of the em in font units (1 where the face states none).
    pub closed spec fn units_per_em_spec(&self) -> u16 {
        self.units_per_em
    }

    /// What the face has resolved so far, by character.
    pub closed spec fn glyph_infos(&self) -> Map<char, GlyphInfo> {
        self.glyph_info_cache@
    }

    /// What the face has drawn so far, by glyph and pixel scale.
    pub closed spec fn allocations(&self) -> Map<AllocKey, GlyphAllocation> {
        self.glyph_alloc_cache@
    }

    pub closed spec fn wf(&self) -> bool {
        &&& self.glyph_info_cache.wf()
        &&& self.glyph_alloc_cache.wf()
        &&& self.glyph_info_cache@.contains_key(' ')
            ==> self.glyph_info_cache@[' '].advance_width_unscaled <= SUBUNITS_PER_FONT_UNIT
            * u16::MAX
        &&& forall|c: char| #[trigger]
            self.glyph_info_cache@.contains_key(c) && self.glyph_info_cache@[c].visible
                ==> self.glyph_info_cache@[c].id != 0
        &&& forall|c: char| #[trigger]
            self.glyph_info_cache@.contains_key(c) && is_invisible_char(c)
                ==> self.glyph_info_cache@[c] == GlyphInfo::default_spec()
        &&& forall|c: char| #[trigger]
            self.glyph_info_cache@.contains_key(c) && !self.glyph_info_cache@[c].visible
                ==> self.glyph_info_cache@[c] == GlyphInfo::default_spec()
        &&& forall|c: char| #[trigger]
            self.glyph_info_cache@.contains_key(c) ==> !is_ignored_char(self.name@, c)
    }

    /// A glyph that a well-formed face has cached is drawable when visible,
    /// and is the zero-width space for the invisible characters.
    pub proof fn lemma_cached_glyph(&self, c: char)
        requires
            self.wf(),
            self.glyph_infos().contains_key(c),
        ensures
            self.glyph_infos()[c].visible ==> self.glyph_infos()[c].id != 0,
            is_invisible_char(c) ==> self.glyph_infos()[c] == GlyphInfo::default_spec(),
            !self.glyph_infos()[c].visible ==> self.glyph_infos()[c] == GlyphInfo::default_spec(),
            !is_ignored_char(self.name_spec(), c),
    {
    }

    /// A well-formed face answers an invisible character with the zero-width
    /// space, and a character it ignores with `None`, caching nothing.
    pub proof fn lemma_answer(&self, c: char, r: Option<GlyphInfo>, after: Map<char, GlyphInfo>)
        requires
            self.wf(),
            resolve_post(self.name_spec(), self.units_per_em_spec(), c, self.glyph_infos(), r, after),
        ensures
            is_invisible_char(c) ==> r == Some(GlyphInfo::default_spec()),
            is_ignored_char(self.name_spec(), c) ==> r is None && after == self.glyph_infos(),
    {
        if self.glyph_infos().contains_key(c) {
            self.lemma_cached_glyph(c);
        }
    }

    /// A well-formed face holds no character it ignores.
    pub proof fn lemma_cached_glyph_absent(&self, c: char)
        requires
            self.wf(),
            is_ignored_char(self.name_spec(), c),
        ensures
            !self.glyph_infos().contains_key(c),
    {
    }

    pub fn new(name: String, face: F) -> (r: Self)
        ensures
            r.wf(),
            r.name_spec() == name@,
            r.glyph_infos() == Map::<char, GlyphInfo>::empty(),
            r.allocations() == Map::<AllocKey, GlyphAllocation>::empty(),
    {
        let units_per_em = match face.units_per_em() {
            Some(u) => u,
            None => 1,
        };
        FontImpl {
            name,
            face,
            units_per_em,
            glyph_info_cache: CharMap::new(),
            glyph_alloc_cache: AllocCache::new(),
        }
    }

    /// The face's name.
    pub fn name(&self) -> (r: &str)
        ensures
            r@ == self.name_spec(),
    {
        self.name.as_str()
    }

    /// A copy of the face's name.
    pub fn name_owned(&self) -> (r: String)
        ensures
            r@ == self.name_spec(),
    {
        self.name.clone()
    }

    /// The outline font.
    pub fn face(&self) -> &F {
        &self.face
    }

    /// The size of the em in font units (1 where the face states none).
    pub fn units_per_em(&self) -> (r: u16)
        ensures
            r == self.units_per_em_spec(),
    {
        self.units_per_em
    }

    /// Code points that this face always leaves to the replacement character.
    pub fn ignore_character(&self, c: char) -> (r: bool)
        ensures
            r == is_ignored_char(self.name_spec(), c),
    {
        ignore_character(self.name.as_str(), c)
    }

    /// All characters the face supports, in no particular order.
    pub fn characters(&self) -> (r: Vec<char>)
        ensures
            forall|i: int| 0 <= i < r@.len() ==> !is_ignored_char(self.name_spec(), #[trigger] r@[i]),
    {
        let all = self.face.codepoints();
        without_ignored(self.name.as_str(), &all)
    }

    /// Resolves `c` to a glyph of this face; `None` where the face neither maps
    /// nor special-cases it (`\n` among them).
    pub fn glyph_info(&mut self, c: char) -> (r: Option<GlyphInfo>)
        requires
            old(self).wf(),
        ensures
            final(self).wf(),
            final(self).name_spec() == old(self).name_spec(),
            final(self).units_per_em_spec() == old(self).units_per_em_spec(),
            final(self).allocations() == old(self).allocations(),
            r matches Some(g) ==> (g.visible <==> g.id != 0),
            r matches Some(g) ==> (!g.visible ==> g == GlyphInfo::default_spec()),
            resolve_post(
                old(self).name_spec(),
                old(self).units_per_em_spec(),
                c,
                old(self).glyph_infos(),
                r,
                final(self).glyph_infos(),
            ),
        decreases
            if is_derived_from_space(c) { 1int } else { 0int },
    {
        if let Some(info) = self.glyph_info_cache.get(c) {
            return Some(info);
        }
        if self.ignore_character(c) {
            // Drawn as the replacement character.
            return None;
        }
        let ghost before = self.glyph_info_cache@;
        if c == '\t' || c == '\u{2009}' {
            if let Some(space) = self.glyph_info(' ') {
                let ghost mid = self.glyph_info_cache@;
                assert(mid.contains_key(' ') && mid[' '] == space);
                assert(mid =~= before.insert(' ', space));
                let info = if c == '\t' {
                    tab_glyph(space)
                } else {
                    // Thin space, often used as thousands separator.
                    thin_space_glyph(space, self.units_per_em)
                };
                self.glyph_info_cache.insert(c, info);
                assert(self.glyph_info_cache@[' '] == space);
                assert(self.glyph_info_cache@ =~= before.insert(' ', space).insert(c, info));
                return Some(info);
            }
        }
        if invisible_char(c) {
            let info = GlyphInfo::default();
            self.glyph_info_cache.insert(c, info);
            return Some(info);
        }
        let id = self.face.glyph_id(c);
        let advance = if id == 0 { 0 } else { self.face.h_advance_unscaled(id) };
        let r = glyph_from_mapping(id, advance);
        assert(r == mapped_glyph(id, advance));
        if let Some(info) = r {
            self.glyph_info_cache.insert(c, info);
        }
        r
    }

    /// The glyph `glyph_info` drawn at the rounded pixel scale `scale`.
    /// Invisible glyphs are never drawn. A visible glyph is drawn by
    /// `rasterize` (outline, place in the atlas, paint) the first time it is
    /// asked for at a scale; after that the stored result is returned.
    pub fn allocate_glyph<R: FnOnce(GlyphInfo, u32) -> UvRect>(
        &mut self,
        glyph_info: GlyphInfo,
        scale: u32,
        rasterize: R,
    ) -> (r: GlyphAllocation)
        requires
            old(self).wf(),
            glyph_info.visible && !old(self).allocations().contains_key((glyph_info, scale))
                ==> glyph_info.id != 0 && rasterize.requires((glyph_info, scale)),
        ensures
            final(self).wf(),
            final(self).name_spec() == old(self).name_spec(),
            final(self).units_per_em_spec() == old(self).units_per_em_spec(),
            final(self).glyph_infos() == old(self).glyph_infos(),
            allocate_post(glyph_info, scale, rasterize, old(self).allocations(), r, final(self).allocations()),
    {
        if !glyph_info.visible {
            return GlyphAllocation::default();
        }
        if let Some(a) = self.glyph_alloc_cache.get(glyph_info, scale) {
            return a;
        }
        let uv_rect = rasterize(glyph_info, scale);
        let a = GlyphAllocation {
            id: glyph_info.id,
            advance_width_unscaled: glyph_info.advance_width_unscaled,
            scale,
            uv_rect,
        };
        self.glyph_alloc_cache.insert(glyph_info, scale, a);
        a
    }
}

/// How one allocation of `glyph_info` at `scale` changes the raster cache, from
/// `before` to `after`, and what it returns.
pub open spec fn allocate_post<R: FnOnce(GlyphInfo, u32) -> UvRect>(
    glyph_info: GlyphInfo,
    scale: u32,
    rasterize: R,
    before: Map<AllocKey, GlyphAllocation>,
    r: GlyphAllocation,
    after: Map<AllocKey, GlyphAllocation>,
) -> bool {
    if !glyph_info.visible {
        r == GlyphAllocation::default_spec() && after == before
    } else if before.contains_key((glyph_info, scale)) {
        r == before[(glyph_info, scale)] && after == before
    } else {
        &&& rasterize.ensures((glyph_info, scale), r.uv_rect)
        &&& r.id == glyph_info.id
        &&& r.advance_width_unscaled == glyph_info.advance_width_unscaled
        &&& r.scale == scale
        &&& after == before.insert((glyph_info, scale), r)
    }
}

/// The characters of `chars` that the face named `name` does not ignore, in
/// order.
pub fn without_ignored(name: &str, chars: &Vec<char>) -> (r: Vec<char>)
    ensures
        r@ == chars@.filter(|c: char| !is_ignored_char(name@, c)),
{
    let ghost keep = |c: char| !is_ignored_char(name@, c);
    let mut r: Vec<char> = Vec::new();
    let mut i: usize = 0;
    while i < chars.len()
        invariant
            i <= chars@.len(),
            keep == (|c: char| !is_ignored_char(name@, c)),
            r@ == chars@.subrange(0, i as int).filter(keep),
        decreases chars@.len() - i,
    {
        let c = chars[i];
        proof {
            assert(chars@.subrange(0, i + 1).drop_last() =~= chars@.subrange(0, i as int));
            reveal_with_fuel(Seq::filter, 1);
        }
        if !ignore_character(name, c) {
            r.push(c);
        }
        i = i + 1;
    }
    assert(chars@.subrange(0, chars@.len() as int) =~= chars@);
    r
}

} // verus!
