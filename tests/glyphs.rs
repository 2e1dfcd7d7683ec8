use std::cell::Cell;
use std::rc::Rc;

use glyph_cache::chars::{ignore_character, invisible_char};
use glyph_cache::face::{FaceSource, FontImpl};
use glyph_cache::family::{Font, FontFaceKey, PASSWORD_REPLACEMENT_CHAR};
use glyph_cache::index::merge_characters;
use glyph_cache::glyph::{GlyphAllocation, GlyphInfo, UvRect, SUBUNITS_PER_FONT_UNIT, TAB_SIZE};

/// A face with a fixed character map that counts the glyph lookups made on it.
struct TestFace {
    map: Vec<(char, u16, u16)>,
    units_per_em: u16,
    lookups: Rc<Cell<usize>>,
}

impl FaceSource for TestFace {
    fn glyph_id(&self, c: char) -> u16 {
        self.lookups.set(self.lookups.get() + 1);
        self.map.iter().find(|e| e.0 == c).map(|e| e.1).unwrap_or(0)
    }

    fn h_advance_unscaled(&self, id: u16) -> u16 {
        self.map.iter().find(|e| e.1 == id).map(|e| e.2).unwrap_or(0)
    }

    fn units_per_em(&self) -> Option<u16> {
        Some(self.units_per_em)
    }

    fn codepoints(&self) -> Vec<char> {
        self.map.iter().map(|e| e.0).collect()
    }
}

fn face(name: &str, map: Vec<(char, u16, u16)>) -> (FontImpl<TestFace>, Rc<Cell<usize>>) {
    let lookups = Rc::new(Cell::new(0));
    let f = TestFace { map, units_per_em: 1000, lookups: lookups.clone() };
    (FontImpl::new(name.to_string(), f), lookups)
}

fn units(info: &GlyphInfo) -> f32 {
    info.advance_width_unscaled as f32 / SUBUNITS_PER_FONT_UNIT as f32
}

#[test]
fn invisible_chars_are_the_format_controls() {
    for c in [
        '\r', '\u{200B}', '\u{200C}', '\u{200D}', '\u{200E}', '\u{200F}', '\u{202A}', '\u{202E}',
        '\u{2060}', '\u{2064}', '\u{2066}', '\u{2069}', '\u{206A}', '\u{206F}', '\u{FEFF}',
    ] {
        assert!(invisible_char(c), "{c:?}");
    }
    for c in ['a', ' ', '\n', '\t', '\u{2065}', '\u{2009}', '\u{FEFE}'] {
        assert!(!invisible_char(c), "{c:?}");
    }
}

#[test]
fn ignored_chars_only_on_builtin_faces() {
    assert!(ignore_character("Hack", '\u{534d}'));
    assert!(ignore_character("Ubuntu-Light", '\u{F200}'));
    assert!(ignore_character("emoji-icon-font", '\u{5350}'));
    assert!(!ignore_character("Hack", 'a'));
    assert!(!ignore_character("MyFont", '\u{534d}'));
    assert!(!ignore_character("Hac", '\u{534d}'));
}

#[test]
fn nothing_rect_iff_min_equals_max() {
    let r = UvRect { offset: [1, 2], size: [3, 4], min: [5, 6], max: [5, 6] };
    assert!(r.is_nothing());
    let r = UvRect { offset: [0, 0], size: [0, 0], min: [5, 6], max: [5, 7] };
    assert!(!r.is_nothing());
    let r = UvRect { offset: [0, 0], size: [0, 0], min: [5, 6], max: [6, 6] };
    assert!(!r.is_nothing());
    assert!(UvRect::nothing().is_nothing());
}

#[test]
fn placement_builds_rect() {
    let r = UvRect::from_placement([-1, -7], 4, 8, [10, 20]);
    assert_eq!(r, UvRect { offset: [-1, -7], size: [4, 8], min: [10, 20], max: [14, 28] });
    assert!(!r.is_nothing());
    assert!(UvRect::from_placement([-1, -7], 0, 8, [10, 20]).is_nothing());
    assert!(UvRect::from_placement([-1, -7], 4, 0, [10, 20]).is_nothing());
}

#[test]
fn defaults_are_zero_width_space() {
    let g = GlyphInfo::default();
    assert_eq!(g, GlyphInfo { id: 0, advance_width_unscaled: 0, visible: false });
    let a = GlyphAllocation::default();
    assert_eq!(a.id, 0);
    assert_eq!(a.advance_width_unscaled, 0);
    assert!(a.uv_rect.is_nothing());
}

#[test]
fn space_and_tab_metrics_scenario() {
    let (mut t, _) = face("T", vec![(' ', 3, 500)]);
    let space = t.glyph_info(' ').unwrap();
    assert_eq!(units(&space), 500.0);
    let tab = t.glyph_info('\t').unwrap();
    assert_eq!(units(&tab), 2000.0);
    assert_eq!(tab.advance_width_unscaled, TAB_SIZE * space.advance_width_unscaled);
    assert_eq!(tab.id, space.id);
    assert_eq!(tab.visible, space.visible);
    // At font size 16 and one pixel per point the pixel scale is 16.
    let scale = 16u32;
    let scaled = |g: &GlyphInfo| units(g) * scale as f32 / t.units_per_em() as f32 / 1.0;
    assert_eq!(scaled(&space), 8.0);
    assert_eq!(scaled(&tab), 32.0);
}

#[test]
fn tab_before_space_resolves_both() {
    let (mut t, lookups) = face("T", vec![(' ', 3, 500)]);
    let tab = t.glyph_info('\t').unwrap();
    assert_eq!(units(&tab), 2000.0);
    assert_eq!(lookups.get(), 1);
    let space = t.glyph_info(' ').unwrap();
    assert_eq!(units(&space), 500.0);
    assert_eq!(t.glyph_info('\t'), Some(tab));
    assert_eq!(lookups.get(), 1);
}

#[test]
fn thin_space_is_sixth_em_or_half_space() {
    let (mut wide, _) = face("T", vec![(' ', 3, 500)]);
    let thin = wide.glyph_info('\u{2009}').unwrap();
    assert_eq!(thin.advance_width_unscaled, 1000); // 1000 / 6 units
    assert!((units(&thin) - 1000.0 / 6.0).abs() < 1e-3);
    let (mut narrow, _) = face("T", vec![(' ', 3, 300)]);
    let thin = narrow.glyph_info('\u{2009}').unwrap();
    assert_eq!(units(&thin), 150.0);
    assert_eq!(thin.id, 3);
    assert!(thin.visible);
}

#[test]
fn invisible_chars_resolve_to_nothing() {
    let (mut t, lookups) = face("T", vec![(' ', 3, 500)]);
    let g = t.glyph_info('\u{200B}').unwrap();
    assert_eq!(g, GlyphInfo::default());
    assert_eq!(t.glyph_info('\r'), Some(GlyphInfo::default()));
    assert_eq!(lookups.get(), 0);
    let calls = Cell::new(0);
    let a = t.allocate_glyph(g, 16, |_, _| {
        calls.set(calls.get() + 1);
        UvRect::from_placement([0, 0], 3, 3, [0, 0])
    });
    assert_eq!(a, GlyphAllocation::default());
    assert!(a.uv_rect.is_nothing());
    assert_eq!(calls.get(), 0);
}

#[test]
fn unsupported_and_ignored_chars_give_none() {
    let (mut t, _) = face("T", vec![('a', 7, 400)]);
    assert_eq!(t.glyph_info('b'), None);
    assert_eq!(t.glyph_info('\n'), None);
    let (mut hack, lookups) = face("Hack", vec![('\u{534d}', 9, 400)]);
    assert_eq!(hack.glyph_info('\u{534d}'), None);
    assert_eq!(lookups.get(), 0);
    assert!(hack.characters().is_empty());
    assert_eq!(t.characters(), vec!['a']);
}

#[test]
fn allocation_is_drawn_once_per_scale() {
    let (mut t, _) = face("T", vec![('a', 7, 400)]);
    let g = t.glyph_info('a').unwrap();
    assert_eq!(g, GlyphInfo { id: 7, advance_width_unscaled: 2400, visible: true });
    let calls = Cell::new(0);
    let draw = |_: GlyphInfo, scale: u32| {
        calls.set(calls.get() + 1);
        UvRect::from_placement([0, -(scale as i32)], 5, 9, [(calls.get() * 10) as u16, 0])
    };
    let a1 = t.allocate_glyph(g, 16, draw);
    assert_eq!(a1.id, 7);
    assert_eq!(a1.scale, 16);
    assert_eq!(a1.advance_width_unscaled, 2400);
    assert_eq!(a1.uv_rect.min, [10, 0]);
    assert_eq!(a1.uv_rect.max, [15, 9]);
    let a2 = t.allocate_glyph(g, 16, draw);
    assert_eq!(a2, a1);
    assert_eq!(calls.get(), 1);
    let a3 = t.allocate_glyph(g, 32, draw);
    assert_eq!(calls.get(), 2);
    assert_eq!(a3.uv_rect.min, [20, 0]);
    assert_eq!(a3.uv_rect.offset, [0, -32]);
}

fn two_face_family() -> (Font<TestFace>, Rc<Cell<usize>>, Rc<Cell<usize>>) {
    let (main, l0) = face("Main", vec![('a', 1, 500), (' ', 2, 250), ('?', 3, 400)]);
    let (emoji, l1) = face("Emoji", vec![('a', 5, 900), ('x', 6, 800), ('\u{25FB}', 7, 1000)]);
    (Font::new(vec![main, emoji], vec![FontFaceKey(0), FontFaceKey(1)]), l0, l1)
}

#[test]
fn family_falls_back_in_order() {
    let (mut font, _, _) = two_face_family();
    assert_eq!(font.replacement_glyph(), (FontFaceKey(1), GlyphInfo { id: 7, advance_width_unscaled: 6000, visible: true }));
    assert_eq!(font.glyph_info('a'), (FontFaceKey(0), GlyphInfo { id: 1, advance_width_unscaled: 3000, visible: true }));
    assert_eq!(font.glyph_info('x'), (FontFaceKey(1), GlyphInfo { id: 6, advance_width_unscaled: 4800, visible: true }));
}

#[test]
fn unmapped_char_is_replacement_and_cached() {
    let (mut font, l0, l1) = two_face_family();
    let before = (l0.get(), l1.get());
    let r = font.glyph_info('z');
    assert_eq!(r, font.replacement_glyph());
    assert_eq!((l0.get(), l1.get()), (before.0 + 1, before.1 + 1));
    assert_eq!(font.glyph_info('z'), r);
    assert_eq!((l0.get(), l1.get()), (before.0 + 1, before.1 + 1));
}

#[test]
fn has_glyph_against_replacement() {
    let (mut font, _, _) = two_face_family();
    assert!(font.has_glyph('a'));
    assert!(font.has_glyph('x'));
    assert!(!font.has_glyph('z'));
    // The replacement character itself reads as missing.
    assert!(!font.has_glyph('\u{25FB}'));
    assert!(font.has_glyphs("ax a"));
    assert!(!font.has_glyphs("axz"));
    assert!(font.has_glyphs(""));
}

#[test]
fn fallback_replacement_when_primary_missing() {
    let (main, _) = face("Main", vec![('a', 1, 500), ('?', 3, 400)]);
    let font = Font::new(vec![main], vec![FontFaceKey(0)]);
    assert_eq!(font.replacement_glyph(), (FontFaceKey(0), GlyphInfo { id: 3, advance_width_unscaled: 2400, visible: true }));
    let (bare, _) = face("Bare", vec![('a', 1, 500)]);
    let font = Font::new(vec![bare], vec![FontFaceKey(0)]);
    assert_eq!(font.replacement_glyph(), (FontFaceKey(0), GlyphInfo::default()));
}

#[test]
fn preload_resolves_without_new_lookups_later() {
    let (mut font, l0, _) = two_face_family();
    font.preload_common_characters();
    let n = l0.get();
    for c in ' '..='~' {
        font.glyph_info(c);
    }
    font.glyph_info('\u{00B0}');
    font.glyph_info(PASSWORD_REPLACEMENT_CHAR);
    assert_eq!(l0.get(), n);
    font.preload_characters("é");
    let m = l0.get();
    assert_eq!(m, n + 1);
    font.glyph_info('é');
    assert_eq!(l0.get(), m);
}

#[test]
fn empty_family_has_no_face() {
    let font_faces: Vec<FontImpl<TestFace>> = Vec::new();
    let mut font = Font::new(font_faces, Vec::new());
    let (key, info) = font.font_impl_and_glyph_info('a');
    assert_eq!(key, None);
    assert_eq!(info, GlyphInfo::default());
    let (key, alloc) = font.font_impl_and_glyph_alloc('a', |_| 16, |_, _| UvRect::nothing());
    assert_eq!(key, None);
    assert_eq!(alloc, GlyphAllocation::default());
    assert!(font.first_font().is_none());
}

#[test]
fn family_allocation_goes_to_owning_face() {
    let (mut font, _, _) = two_face_family();
    let (key, info) = font.font_impl_and_glyph_info('x');
    assert_eq!(key, Some(FontFaceKey(1)));
    assert_eq!(info.id, 6);
    let calls = Cell::new(0);
    let (key, alloc) = font.font_impl_and_glyph_alloc(
        'x',
        |k| if k == FontFaceKey(1) { 24 } else { 16 },
        |_, _| {
            calls.set(calls.get() + 1);
            UvRect::from_placement([0, 0], 2, 2, [4, 4])
        },
    );
    assert_eq!(key, Some(FontFaceKey(1)));
    assert_eq!(alloc.scale, 24);
    assert_eq!(alloc.uv_rect.max, [6, 6]);
    let (_, again) = font.font_impl_and_glyph_alloc('x', |_| 24, |_, _| UvRect::nothing());
    assert_eq!(again, alloc);
    assert_eq!(calls.get(), 1);
    assert_eq!(font.first_font().unwrap().name(), "Main");
    assert_eq!(font.font_impl(FontFaceKey(1)).name(), "Emoji");
}

#[test]
fn family_character_index() {
    let (mut font, _, _) = two_face_family();
    let expected: Vec<(char, Vec<String>)> = vec![
        (' ', vec!["Main".to_string()]),
        ('?', vec!["Main".to_string()]),
        ('a', vec!["Main".to_string(), "Emoji".to_string()]),
        ('x', vec!["Emoji".to_string()]),
        ('\u{25FB}', vec!["Emoji".to_string()]),
    ];
    assert_eq!(font.characters(), &expected);
    assert_eq!(font.characters(), &expected);
    let (hack, _) = face("Hack", vec![('b', 1, 500), ('\u{5350}', 2, 500)]);
    let mut font = Font::new(vec![hack], vec![FontFaceKey(0)]);
    assert_eq!(font.characters(), &vec![('b', vec!["Hack".to_string()])]);
}

#[test]
fn merged_index_is_sorted_with_faces_in_order() {
    let faces = vec![
        ("B".to_string(), vec!['z', 'a', 'm']),
        ("A".to_string(), vec![]),
        ("C".to_string(), vec!['m', '\u{1F600}', 'a']),
    ];
    let idx = merge_characters(&faces);
    assert_eq!(
        idx,
        vec![
            ('a', vec!["B".to_string(), "C".to_string()]),
            ('m', vec!["B".to_string(), "C".to_string()]),
            ('z', vec!["B".to_string()]),
            ('\u{1F600}', vec!["C".to_string()]),
        ]
    );
    assert!(merge_characters(&Vec::new()).is_empty());
}

#[test]
fn has_glyphs_stops_at_first_missing() {
    let (mut font, l0, _) = two_face_family();
    let before = l0.get();
    assert!(!font.has_glyphs("azx"));
    // 'a' and 'z' were asked, 'x' was not.
    assert_eq!(l0.get(), before + 2);
    font.glyph_info('x');
    assert_eq!(l0.get(), before + 3);
}
