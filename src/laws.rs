//! Properties that hold across calls of the caches.
use vstd::prelude::*;
use crate::cache::AllocKey;
use crate::chars::{is_ignored_char, is_invisible_char};
use crate::face::{FaceSource, FontImpl, allocate_post, resolve_post};
use crate::family::{FontFaceKey, Font, family_resolve_post};
use crate::glyph::{GlyphAllocation, GlyphInfo, TAB_SIZE, UvRect, mapped_glyph};

verus! {

/// Asking a face twice for a character it resolves gives the same glyph, and
/// the second query changes nothing.
pub proof fn lemma_face_query_idempotent(
    name: Seq<char>,
    units_per_em: u16,
    c: char,
    m0: Map<char, GlyphInfo>,
    r1: Option<GlyphInfo>,
    m1: Map<char, GlyphInfo>,
    r2: Option<GlyphInfo>,
    m2: Map<char, GlyphInfo>,
)
    requires
        resolve_post(name, units_per_em, c, m0, r1, m1),
        resolve_post(name, units_per_em, c, m1, r2, m2),
        r1 is Some,
    ensures
        r2 == r1,
        m2 == m1,
{
}

/// Asking a family twice for a character gives the same face and glyph, and
/// the second query changes nothing: no face is asked again.
pub proof fn lemma_family_query_idempotent<F: FaceSource>(
    f0: Font<F>,
    c: char,
    r1: (FontFaceKey, GlyphInfo),
    f1: Font<F>,
    r2: (FontFaceKey, GlyphInfo),
    f2: Font<F>,
)
    requires
        family_resolve_post(f0, c, r1, f1),
        family_resolve_post(f1, c, r2, f2),
    ensures
        r2 == r1,
        f2 == f1,
{
    assert(f1.resolved().contains_key(c));
}

/// Drawing a glyph twice at one scale gives the same allocation, and the
/// second time the cache is left as it was.
pub proof fn lemma_allocation_idempotent<R1: FnOnce(GlyphInfo, u32) -> UvRect, R2: FnOnce(
    GlyphInfo,
    u32,
) -> UvRect>(
    info: GlyphInfo,
    scale: u32,
    rasterize1: R1,
    rasterize2: R2,
    a0: Map<AllocKey, GlyphAllocation>,
    r1: GlyphAllocation,
    a1: Map<AllocKey, GlyphAllocation>,
    r2: GlyphAllocation,
    a2: Map<AllocKey, GlyphAllocation>,
)
    requires
        allocate_post(info, scale, rasterize1, a0, r1, a1),
        allocate_post(info, scale, rasterize2, a1, r2, a2),
    ensures
        r2 == r1,
        a2 == a1,
{
}

/// The tab glyph of a face is its space glyph, `TAB_SIZE` times as wide, and
/// the space glyph is resolved on the way if it was not yet.
pub proof fn lemma_tab_width(
    name: Seq<char>,
    units_per_em: u16,
    before: Map<char, GlyphInfo>,
    r: Option<GlyphInfo>,
    after: Map<char, GlyphInfo>,
)
    requires
        resolve_post(name, units_per_em, '\t', before, r, after),
        !before.contains_key('\t'),
        after.contains_key(' '),
    ensures
        r == Some(GlyphInfo {
            advance_width_unscaled: (TAB_SIZE * after[' '].advance_width_unscaled) as u32,
            ..after[' ']
        }),
        after.contains_key('\t'),
        after['\t'] == r->Some_0,
        !before.contains_key(' ') ==> exists|id: u16, advance: u16|
            Some(after[' ']) == mapped_glyph(id, advance),
{
    assert(!is_ignored_char(name, '\t'));
}

/// The thin-space glyph of a face is its space glyph, as wide as a sixth of
/// an em or half a space, whichever is narrower (in sixths of a font unit a
/// sixth of an em is `units_per_em`).
pub proof fn lemma_thin_space_width(
    name: Seq<char>,
    units_per_em: u16,
    before: Map<char, GlyphInfo>,
    r: Option<GlyphInfo>,
    after: Map<char, GlyphInfo>,
)
    requires
        resolve_post(name, units_per_em, '\u{2009}', before, r, after),
        !before.contains_key('\u{2009}'),
        after.contains_key(' '),
    ensures
        r == Some(GlyphInfo {
            advance_width_unscaled: if (units_per_em as u32) < after[' '].advance_width_unscaled / 2 {
                units_per_em as u32
            } else {
                after[' '].advance_width_unscaled / 2
            },
            ..after[' ']
        }),
{
    assert(!is_ignored_char(name, '\u{2009}'));
}

/// An invisible character resolves to the zero-width space on every face, and
/// drawing it leaves the raster cache alone and gives the empty allocation.
pub proof fn lemma_invisible_char<F: FaceSource, R: FnOnce(GlyphInfo, u32) -> UvRect>(
    face: FontImpl<F>,
    c: char,
    r: Option<GlyphInfo>,
    after: Map<char, GlyphInfo>,
    scale: u32,
    rasterize: R,
    a0: Map<AllocKey, GlyphAllocation>,
    drawn: GlyphAllocation,
    a1: Map<AllocKey, GlyphAllocation>,
)
    requires
        face.wf(),
        is_invisible_char(c),
        resolve_post(face.name_spec(), face.units_per_em_spec(), c, face.glyph_infos(), r, after),
        allocate_post(r->Some_0, scale, rasterize, a0, drawn, a1),
    ensures
        r == Some(GlyphInfo::default_spec()),
        r->Some_0.advance_width_unscaled == 0,
        !r->Some_0.visible,
        drawn == GlyphAllocation::default_spec(),
        drawn.uv_rect.min == drawn.uv_rect.max,
        a1 == a0,
{
    assert(!is_ignored_char(face.name_spec(), c));
    if face.glyph_infos().contains_key(c) {
        face.lemma_cached_glyph(c);
    }
}

/// A character that no face of the family maps comes out as the family's
/// replacement glyph.
pub proof fn lemma_unmapped_is_replacement<F: FaceSource>(
    f0: Font<F>,
    c: char,
    r: (FontFaceKey, GlyphInfo),
    f1: Font<F>,
)
    requires
        family_resolve_post(f0, c, r, f1),
        forall|i: int| 0 <= i < f1.family().len() ==> !#[trigger] f1.face_glyphs_of(f1.family()[i]).contains_key(c),
        !f0.resolved().contains_key(c),
    ensures
        r == f1.replacement(),
        f1.resolved()[c] == f1.replacement(),
{
    if exists|i: int| f1.first_resolving(c, i) {
        let i = choose|i: int| f1.first_resolving(c, i);
        assert(!f1.face_glyphs_of(f1.family()[i]).contains_key(c));
    }
}

/// A built-in face never resolves a character of its denylist, and asking for
/// one caches nothing.
pub proof fn lemma_ignored_char_unresolved<F: FaceSource>(
    face: FontImpl<F>,
    c: char,
    r: Option<GlyphInfo>,
    after: Map<char, GlyphInfo>,
)
    requires
        face.wf(),
        is_ignored_char(face.name_spec(), c),
        resolve_post(face.name_spec(), face.units_per_em_spec(), c, face.glyph_infos(), r, after),
    ensures
        r is None,
        !after.contains_key(c),
{
    face.lemma_answer(c, r, after);
    face.lemma_cached_glyph_absent(c);
}

/// Through a family with faces, an invisible character resolves to the
/// zero-width space, and drawing it gives the empty allocation and leaves the
/// raster cache alone.
pub proof fn lemma_family_invisible_char<F: FaceSource, R: FnOnce(GlyphInfo, u32) -> UvRect>(
    f0: Font<F>,
    c: char,
    r: (FontFaceKey, GlyphInfo),
    f1: Font<F>,
    scale: u32,
    rasterize: R,
    a0: Map<AllocKey, GlyphAllocation>,
    drawn: GlyphAllocation,
    a1: Map<AllocKey, GlyphAllocation>,
)
    requires
        f0.wf(),
        f0.family().len() > 0,
        is_invisible_char(c),
        family_resolve_post(f0, c, r, f1),
        f1.resolved().contains_key(c),
        f1.resolved()[c] == r,
        allocate_post(r.1, scale, rasterize, a0, drawn, a1),
    ensures
        r.1 == GlyphInfo::default_spec(),
        drawn == GlyphAllocation::default_spec(),
        a1 == a0,
{
    f1.lemma_invisible_resolved(c);
}

/// Drawing a character through a family twice at one pixel scale gives the
/// same face, glyph and allocation, and the second time nothing changes.
pub proof fn lemma_family_allocation_stable<F: FaceSource, R1: FnOnce(GlyphInfo, u32) -> UvRect, R2: FnOnce(
    GlyphInfo,
    u32,
) -> UvRect>(
    f0: Font<F>,
    c: char,
    scale: u32,
    mid1: Font<F>,
    rasterize1: R1,
    r1: GlyphAllocation,
    f1: Font<F>,
    mid2: Font<F>,
    rasterize2: R2,
    r2: GlyphAllocation,
    f2: Font<F>,
)
    requires
        family_resolve_post(f0, c, mid1.resolved()[c], mid1),
        mid1.resolved().contains_key(c),
        mid1.draws_only(f1, mid1.resolved()[c].0),
        allocate_post(
            mid1.resolved()[c].1,
            scale,
            rasterize1,
            mid1.face(mid1.resolved()[c].0).allocations(),
            r1,
            f1.face(mid1.resolved()[c].0).allocations(),
        ),
        family_resolve_post(f1, c, mid2.resolved()[c], mid2),
        mid2.resolved().contains_key(c),
        mid2.draws_only(f2, mid2.resolved()[c].0),
        allocate_post(
            mid2.resolved()[c].1,
            scale,
            rasterize2,
            mid2.face(mid2.resolved()[c].0).allocations(),
            r2,
            f2.face(mid2.resolved()[c].0).allocations(),
        ),
    ensures
        mid2.resolved()[c] == mid1.resolved()[c],
        r2 == r1,
        f2.face(mid1.resolved()[c].0).allocations() == f1.face(mid1.resolved()[c].0).allocations(),
{
    assert(f1.resolved().contains_key(c));
}

} // verus!
