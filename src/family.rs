use vstd::prelude::*;
use crate::cache::CharMap;
use crate::face::{FaceSource, FontImpl, allocate_post, resolve_post};
use crate::glyph::{GlyphAllocation, GlyphInfo, UvRect};
use crate::chars::{is_ignored_char, is_invisible_char};
use crate::index::{is_merged_index, merge_characters};

verus! {

/// The character drawn for characters that no face of a family maps.
pub const PRIMARY_REPLACEMENT_CHAR: char = '\u{25FB}';

/// The replacement character where no face maps [`PRIMARY_REPLACEMENT_CHAR`].
pub const FALLBACK_REPLACEMENT_CHAR: char = '?';

/// The character that masks each character of a password.
pub const PASSWORD_REPLACEMENT_CHAR: char = '\u{2022}';

/// The key of a face in the registry of faces: its index there.
#[derive(Clone, Copy, Debug, PartialEq, Eq, Structural, Hash)]
pub struct FontFaceKey(pub usize);

/// The cached state of a family: its faces in fallback order and what it has
/// resolved.
pub struct CachedFamily {
    fonts: Vec<FontFaceKey>,
    replacement_glyph: (FontFaceKey, GlyphInfo),
    glyph_info_cache: CharMap<(FontFaceKey, GlyphInfo)>,
    characters: Vec<(char, Vec<String>)>,
    characters_built: bool,
}

/// Several [`FontImpl`]s (e.g. a primary face and fallbacks for emojis) used
/// as one font.
pub struct Font<F> {
    fonts_by_id: Vec<FontImpl<F>>,
    cached_family: CachedFamily,
}

impl<F: FaceSource> Font<F> {
    /// The number of faces in the registry.
    pub closed spec fn num_faces(&self) -> nat {
        self.fonts_by_id@.len()
    }

    /// The face under `key`.
    pub closed spec fn face(&self, key: FontFaceKey) -> FontImpl<F> {
        self.fonts_by_id@[key.0 as int]
    }

    /// The glyph cache of the face under `key`.
    pub open spec fn face_glyphs_of(&self, key: FontFaceKey) -> Map<char, GlyphInfo> {
        self.face(key).glyph_infos()
    }

    /// Is the `i`-th face of the family the first that has resolved `c`,
    /// going by what each face has cached?
    pub open spec fn first_resolving(&self, c: char, i: int) -> bool {
        &&& 0 <= i < self.family().len()
        &&& self.face_glyphs_of(self.family()[i]).contains_key(c)
        &&& forall|j: int| 0 <= j < i ==> !#[trigger] self.face_glyphs_of(self.family()[j]).contains_key(c)
    }

    /// The keys of the family's faces, in fallback order.
    pub closed spec fn family(&self) -> Seq<FontFaceKey> {
        self.cached_family.fonts@
    }

    /// What the family draws for characters that none of its faces maps.
    pub closed spec fn replacement(&self) -> (FontFaceKey, GlyphInfo) {
        self.cached_family.replacement_glyph
    }

    /// What the family has resolved so far, by character.
    pub closed spec fn resolved(&self) -> Map<char, (FontFaceKey, GlyphInfo)> {
        self.cached_family.glyph_info_cache@
    }

    pub open spec fn valid_key(&self, key: FontFaceKey) -> bool {
        key.0 < self.num_faces()
    }

    pub closed spec fn wf(&self) -> bool {
        &&& forall|i: int| 0 <= i < self.fonts_by_id@.len() ==> #[trigger] self.fonts_by_id@[i].wf()
        &&& forall|i: int| 0 <= i < self.family().len() ==> self.valid_key(#[trigger] self.family()[i])
        &&& forall|i: int, j: int|
            0 <= i < j < self.family().len() ==> #[trigger] self.family()[i] != #[trigger] self.family()[j]
        &&& self.family().len() > 0 ==> self.valid_key(self.replacement().0)
        &&& self.replacement().1.visible ==> self.replacement().1.id != 0
        &&& forall|c: char| #[trigger]
            self.resolved().contains_key(c) && is_invisible_char(c) && self.family().len() > 0
                ==> self.resolved()[c].1 == GlyphInfo::default_spec()
        &&& forall|c: char| #[trigger]
            self.resolved().contains_key(c) && self.resolved()[c].1.visible ==> self.resolved()[c].1.id
                != 0
        &&& self.cached_family.glyph_info_cache.wf()
        &&& forall|c: char| #[trigger]
            self.resolved().contains_key(c) && self.family().len() > 0 ==> self.valid_key(
                self.resolved()[c].0,
            )
    }

    /// The `j`-th face of the family, asked for `c`, answered `answer` and went
    /// from its state in `self` to its state in `after`.
    pub open spec fn face_answered(&self, after: Self, c: char, j: int, answer: Option<GlyphInfo>) -> bool {
        resolve_post(
            self.face(self.family()[j]).name_spec(),
            self.face(self.family()[j]).units_per_em_spec(),
            c,
            self.face(self.family()[j]).glyph_infos(),
            answer,
            after.face(self.family()[j]).glyph_infos(),
        )
    }

    /// The family's faces were asked for `c` in order up to the `w`-th (all of
    /// them when `w` is the family's length): each before it answered `None`,
    /// the `w`-th answered `answer`, and those after it were left alone.
    pub open spec fn asked_in_order(&self, after: Self, c: char, w: int, answer: Option<GlyphInfo>) -> bool {
        &&& 0 <= w <= self.family().len()
        &&& forall|j: int| 0 <= j < w ==> #[trigger] self.face_answered(after, c, j, None::<GlyphInfo>)
        &&& w < self.family().len() ==> self.face_answered(after, c, w, answer)
        &&& forall|j: int| w < j < self.family().len() ==> #[trigger] after.face(self.family()[j]) == self.face(self.family()[j])
    }

    /// `after` is this family with only the drawn glyphs of the face under
    /// `key` changed.
    pub open spec fn draws_only(&self, after: Self, key: FontFaceKey) -> bool {
        &&& after.family() == self.family()
        &&& after.replacement() == self.replacement()
        &&& after.resolved() == self.resolved()
        &&& after.num_faces() == self.num_faces()
        &&& forall|k: FontFaceKey| #[trigger] self.valid_key(k) && k != key ==> after.face(k) == self.face(k)
        &&& after.face(key).name_spec() == self.face(key).name_spec()
        &&& after.face(key).units_per_em_spec() == self.face(key).units_per_em_spec()
        &&& after.face(key).glyph_infos() == self.face(key).glyph_infos()
    }

    /// A well-formed family with faces resolves invisible characters to the
    /// zero-width space.
    pub proof fn lemma_invisible_resolved(&self, c: char)
        requires
            self.wf(),
            self.family().len() > 0,
            is_invisible_char(c),
            self.resolved().contains_key(c),
        ensures
            self.resolved()[c].1 == GlyphInfo::default_spec(),
    {
    }

    /// The faces other than the family's are left as they were, and every
    /// face keeps its name, em, drawn glyphs, and the glyphs it had resolved.
    pub open spec fn faces_grow(&self, after: &Self) -> bool {
        &&& after.num_faces() == self.num_faces()
        &&& forall|k: FontFaceKey| #[trigger]
            self.valid_key(k) ==> {
                &&& after.face(k).name_spec() == self.face(k).name_spec()
                &&& after.face(k).units_per_em_spec() == self.face(k).units_per_em_spec()
                &&& after.face(k).allocations() == self.face(k).allocations()
                &&& self.face(k).glyph_infos().submap_of(after.face(k).glyph_infos())
                &&& !self.family().contains(k) ==> after.face(k) == self.face(k)
            }
    }
}

/// A query answered `None` exactly when the face's cache ends up without the
/// character, and an answer `Some` is what the cache ends up holding.
pub proof fn lemma_resolve_caches(
    name: Seq<char>,
    units_per_em: u16,
    c: char,
    before: Map<char, GlyphInfo>,
    r: Option<GlyphInfo>,
    after: Map<char, GlyphInfo>,
)
    requires
        resolve_post(name, units_per_em, c, before, r, after),
    ensures
        r is None <==> !after.contains_key(c),
        r is Some ==> after[c] == r->Some_0,
        before.submap_of(after),
        forall|x: char| #[trigger] after.contains_key(x) ==> before.contains_key(x) || x == c || x == ' ',
{
}

/// A submap of a submap is a submap.
pub proof fn lemma_submap_trans<K, V>(a: Map<K, V>, b: Map<K, V>, c: Map<K, V>)
    requires
        a.submap_of(b),
        b.submap_of(c),
    ensures
        a.submap_of(c),
{
    assert forall|k: K| #[trigger] a.contains_key(k) implies c.contains_key(k) && a[k] == c[k] by {
        assert(b.contains_key(k));
    }
}

/// Faces that grow twice have grown.
pub proof fn lemma_faces_grow_trans<F: FaceSource>(a: Font<F>, b: Font<F>, c: Font<F>)
    requires
        a.faces_grow(&b),
        b.faces_grow(&c),
        b.family() == a.family(),
    ensures
        a.faces_grow(&c),
{
    assert forall|k: FontFaceKey| #[trigger] a.valid_key(k) implies {
        &&& c.face(k).name_spec() == a.face(k).name_spec()
        &&& c.face(k).units_per_em_spec() == a.face(k).units_per_em_spec()
        &&& c.face(k).allocations() == a.face(k).allocations()
        &&& a.face(k).glyph_infos().submap_of(c.face(k).glyph_infos())
        &&& !a.family().contains(k) ==> c.face(k) == a.face(k)
    } by {
        assert(b.valid_key(k));
        lemma_submap_trans(a.face(k).glyph_infos(), b.face(k).glyph_infos(), c.face(k).glyph_infos());
    }
}

impl<F: FaceSource> Font<F> {
    /// Going from this family to `after`, the first `n` characters of `s` were
    /// found drawable, the next one (if any) was not, and exactly the
    /// characters up to that one were newly resolved.
    pub open spec fn stopped_at(&self, after: Self, s: Seq<char>, n: int) -> bool {
        &&& 0 <= n <= s.len()
        &&& forall|j: int|
            0 <= j < n ==> after.resolved().contains_key(#[trigger] s[j]) && after.resolved()[s[j]]
                != after.replacement()
        &&& n < s.len() ==> after.resolved().contains_key(s[n]) && after.resolved()[s[n]]
            == after.replacement()
        &&& forall|x: char|
            #[trigger] after.resolved().contains_key(x) <==> self.resolved().contains_key(x)
                || in_prefix(s, n + 1, x)
    }
}

/// Is `x` one of the first `n` characters of `s`?
pub open spec fn in_prefix(s: Seq<char>, n: int, x: char) -> bool {
    exists|j: int| 0 <= j < n && j < s.len() && s[j] == x
}

impl<F: FaceSource> Font<F> {
    /// Asks the family's faces for `c` in order, bypassing the family's cache;
    /// the first face that resolves it wins.
    fn glyph_info_no_cache_or_fallback(&mut self, c: char) -> (r: Option<(FontFaceKey, GlyphInfo)>)
        requires
            old(self).wf(),
        ensures
            final(self).wf(),
            final(self).cached_family == old(self).cached_family,
            old(self).faces_grow(final(self)),
            forall|k: FontFaceKey, x: char|
                old(self).valid_key(k) && #[trigger] final(self).face(k).glyph_infos().contains_key(x)
                    ==> old(self).face(k).glyph_infos().contains_key(x) || x == c || x == ' ',
            r is None ==> forall|j: int|
                0 <= j < final(self).family().len() ==> !#[trigger] final(self).face_glyphs_of(
                    final(self).family()[j],
                ).contains_key(c),
            r is Some ==> (r->Some_0.1.visible ==> r->Some_0.1.id != 0),
            r is None ==> old(self).asked_in_order(*final(self), c, old(self).family().len() as int, None),
            r is Some ==> exists|w: int|
                #[trigger] old(self).asked_in_order(*final(self), c, w, Some(r->Some_0.1)) && w < old(self).family().len()
                    && old(self).family()[w] == r->Some_0.0,
            r is Some ==> exists|i: int|
                final(self).first_resolving(c, i)
                    && final(self).family()[i] == r->Some_0.0
                    && final(self).face(r->Some_0.0).glyph_infos()[c] == r->Some_0.1,
    {
        let ghost before = *self;
        let n = self.cached_family.fonts.len();
        let mut i: usize = 0;
        while i < n
            invariant
                before == *old(self),
                before.wf(),
                self.wf(),
                n == self.family().len(),
                i <= n,
                self.cached_family == before.cached_family,
                before.faces_grow(self),
                forall|k: FontFaceKey, x: char|
                    before.valid_key(k) && #[trigger] self.face(k).glyph_infos().contains_key(x)
                        ==> before.face(k).glyph_infos().contains_key(x) || x == c || x == ' ',
                forall|j: int| i <= j < n ==> #[trigger] self.face(self.family()[j]) == before.face(self.family()[j]),
                forall|j: int| 0 <= j < i ==> !#[trigger] self.face_glyphs_of(self.family()[j]).contains_key(c),
                forall|j: int| 0 <= j < i ==> #[trigger] before.face_answered(*self, c, j, None::<GlyphInfo>),
            decreases n - i,
        {
            let key = self.cached_family.fonts[i];
            let ghost prev = *self;
            assert(self.valid_key(key));
            let r = self.fonts_by_id[key.0].glyph_info(c);
            proof {
                let f0 = prev.fonts_by_id@[key.0 as int];
                let f1 = self.fonts_by_id@[key.0 as int];
                lemma_resolve_caches(f0.name_spec(), f0.units_per_em_spec(), c, f0.glyph_infos(), r, f1.glyph_infos());
                assert(self.fonts_by_id@ == prev.fonts_by_id@.update(key.0 as int, f1));
                assert(self.cached_family == prev.cached_family);
                assert(self.num_faces() == prev.num_faces());
                assert forall|x: int| 0 <= x < self.fonts_by_id@.len() implies #[trigger] self.fonts_by_id@[x].wf() by {
                    if x != key.0 {
                        assert(prev.fonts_by_id@[x].wf());
                    }
                }
                assert forall|k: FontFaceKey| #[trigger] before.valid_key(k) implies {
                    &&& self.face(k).name_spec() == before.face(k).name_spec()
                    &&& self.face(k).units_per_em_spec() == before.face(k).units_per_em_spec()
                    &&& self.face(k).allocations() == before.face(k).allocations()
                    &&& before.face(k).glyph_infos().submap_of(self.face(k).glyph_infos())
                    &&& !before.family().contains(k) ==> self.face(k) == before.face(k)
                } by {
                    assert(prev.valid_key(k));
                    if k != key {
                        assert(self.face(k) == prev.face(k));
                    } else {
                        assert(before.family()[i as int] == k);
                    }
                }
                assert forall|k: FontFaceKey, x: char|
                    before.valid_key(k) && #[trigger] self.face(k).glyph_infos().contains_key(x)
                        implies before.face(k).glyph_infos().contains_key(x) || x == c || x == ' ' by {
                    assert(prev.valid_key(k));
                    if k != key {
                        assert(self.face(k) == prev.face(k));
                    }
                    assert(prev.face(k).glyph_infos().contains_key(x) ==> before.face(k).glyph_infos().contains_key(x) || x == c || x == ' ');
                }
                assert forall|j: int| i + 1 <= j < n implies #[trigger] self.face(self.family()[j]) == before.face(self.family()[j]) by {
                    assert(self.family()[j] != key);
                    assert(prev.face(prev.family()[j]) == before.face(before.family()[j]));
                }
                assert forall|j: int| 0 <= j < i implies !#[trigger] self.face_glyphs_of(self.family()[j]).contains_key(c) by {
                    assert(self.family()[j] != key);
                    assert(!prev.face_glyphs_of(prev.family()[j]).contains_key(c));
                }
                assert(prev.face(key) == before.face(key));
                assert forall|j: int| 0 <= j < i implies #[trigger] before.face_answered(*self, c, j, None::<GlyphInfo>) by {
                    assert(self.family()[j] != key);
                    assert(before.face_answered(prev, c, j, None::<GlyphInfo>));
                    assert(self.face(before.family()[j]) == prev.face(before.family()[j]));
                }
                assert(before.face_answered(*self, c, i as int, r));
                assert(self.family() == prev.family());
                assert(self.resolved() == prev.resolved());
                assert(self.replacement() == prev.replacement());
                assert(self.cached_family == before.cached_family);
                assert(self.wf());
            }
            if let Some(info) = r {
                assert(self.first_resolving(c, i as int));
                assert(self.fonts_by_id@[key.0 as int].wf());
                assert(self.fonts_by_id@[key.0 as int].glyph_infos().contains_key(c));
                assert(before.asked_in_order(*self, c, i as int, Some(info)));
                assert(before.family()[i as int] == key);
                assert(i < before.family().len());
                let ghost rr = Some((key, info));
                assert(rr->Some_0.1 == info);
                assert(before.asked_in_order(*self, c, i as int, Some(rr->Some_0.1)));
                assert(exists|w: int|
                    #[trigger] before.asked_in_order(*self, c, w, Some(rr->Some_0.1)) && w < before.family().len()
                        && before.family()[w] == rr->Some_0.0);
                return Some((key, info));
            }
            assert forall|j: int| 0 <= j < i + 1 implies #[trigger] before.face_answered(*self, c, j, None::<GlyphInfo>) by {}
            i = i + 1;
        }
        assert(before.asked_in_order(*self, c, n as int, None));
        None
    }
}

/// How one query of `c` changes a family from `before` to `after`, and what it
/// returns: a cached answer as stored; otherwise the first face that resolves
/// `c`, or the replacement glyph where none does, and the answer is cached.
pub open spec fn family_resolve_post<F: FaceSource>(
    before: Font<F>,
    c: char,
    r: (FontFaceKey, GlyphInfo),
    after: Font<F>,
) -> bool {
    &&& after.wf()
    &&& after.family() == before.family()
    &&& after.replacement() == before.replacement()
    &&& before.faces_grow(&after)
    &&& if before.resolved().contains_key(c) {
        r == before.resolved()[c] && after == before
    } else {
        &&& after.resolved() == before.resolved().insert(c, r)
        &&& (exists|i: int| after.first_resolving(c, i))
            ==> exists|i: int|
            after.first_resolving(c, i) && r == (
            after.family()[i],
            after.face(after.family()[i]).glyph_infos()[c],
        )
        &&& !(exists|i: int| after.first_resolving(c, i))
            ==> r == after.replacement()
        &&& (exists|w: int|
            #[trigger] before.asked_in_order(after, c, w, Some(r.1)) && w < before.family().len()
                && before.family()[w] == r.0) || (before.asked_in_order(
            after,
            c,
            before.family().len() as int,
            None,
        ) && r == before.replacement())
    }
}

impl<F: FaceSource> Font<F> {
    /// A family of the faces under `fonts`, in fallback order, from the
    /// registry `fonts_by_id`. Its replacement glyph is what the family
    /// resolves [`PRIMARY_REPLACEMENT_CHAR`] to, or else
    /// [`FALLBACK_REPLACEMENT_CHAR`], or else an invisible glyph of its first
    /// face.
    pub fn new(fonts_by_id: Vec<FontImpl<F>>, fonts: Vec<FontFaceKey>) -> (r: Self)
        requires
            forall|i: int| 0 <= i < fonts_by_id@.len() ==> #[trigger] fonts_by_id@[i].wf(),
            forall|i: int| 0 <= i < fonts@.len() ==> (#[trigger] fonts@[i]).0 < fonts_by_id@.len(),
            forall|i: int, j: int| 0 <= i < j < fonts@.len() ==> #[trigger] fonts@[i] != #[trigger] fonts@[j],
        ensures
            r.wf(),
            r.family() == fonts@,
            r.num_faces() == fonts_by_id@.len(),
            r.resolved() == Map::<char, (FontFaceKey, GlyphInfo)>::empty(),
            (exists|i: int| r.first_resolving(PRIMARY_REPLACEMENT_CHAR, i))
                ==> exists|i: int|
                r.first_resolving(PRIMARY_REPLACEMENT_CHAR, i)
                    && r.replacement() == (
                    r.family()[i],
                    r.face(r.family()[i]).glyph_infos()[PRIMARY_REPLACEMENT_CHAR],
                ),
            r.replacement().1 == GlyphInfo::default_spec() || exists|i: int|
                0 <= i < r.family().len() && r.replacement().0 == r.family()[i] && {
                    ||| r.replacement().1 == r.face(r.family()[i]).glyph_infos()[PRIMARY_REPLACEMENT_CHAR]
                    ||| r.replacement().1 == r.face(r.family()[i]).glyph_infos()[FALLBACK_REPLACEMENT_CHAR]
                },
    {
        let first = if fonts.len() > 0 {
            fonts[0]
        } else {
            FontFaceKey(0)
        };
        let mut slf = Font {
            fonts_by_id,
            cached_family: CachedFamily {
                fonts,
                replacement_glyph: (first, GlyphInfo::default()),
                glyph_info_cache: CharMap::new(),
                characters: Vec::new(),
                characters_built: false,
            },
        };
        let primary = slf.glyph_info_no_cache_or_fallback(PRIMARY_REPLACEMENT_CHAR);
        let ghost primary_found = primary is Some;
        let replacement = match primary {
            Some(found) => found,
            None => {
                let ghost mid = slf;
                let second = slf.glyph_info_no_cache_or_fallback(FALLBACK_REPLACEMENT_CHAR);
                proof {
                    assert forall|j: int| 0 <= j < slf.family().len() implies !#[trigger] slf.face_glyphs_of(
                        slf.family()[j],
                    ).contains_key(PRIMARY_REPLACEMENT_CHAR) by {
                        assert(mid.valid_key(mid.family()[j]));
                        assert(!mid.face_glyphs_of(mid.family()[j]).contains_key(PRIMARY_REPLACEMENT_CHAR));
                    }
                }
                match second {
                    Some(found) => found,
                    None => (first, GlyphInfo::default()),
                }
            },
        };
        let ghost pre = slf;
        slf.cached_family.replacement_glyph = replacement;
        proof {
            assert(slf.fonts_by_id == pre.fonts_by_id);
            assert(slf.family() == pre.family());
            assert forall|i: int| slf.first_resolving(PRIMARY_REPLACEMENT_CHAR, i) implies pre.first_resolving(
                PRIMARY_REPLACEMENT_CHAR,
                i,
            ) && replacement == (pre.family()[i], pre.face(pre.family()[i]).glyph_infos()[PRIMARY_REPLACEMENT_CHAR]) by {
                assert(pre.face_glyphs_of(pre.family()[i]).contains_key(PRIMARY_REPLACEMENT_CHAR));
                assert forall|j: int| 0 <= j < i implies !#[trigger] pre.face_glyphs_of(pre.family()[j]).contains_key(
                    PRIMARY_REPLACEMENT_CHAR,
                ) by {
                    assert(!slf.face_glyphs_of(slf.family()[j]).contains_key(PRIMARY_REPLACEMENT_CHAR));
                }
                if !primary_found {
                    assert(!pre.face_glyphs_of(pre.family()[i]).contains_key(PRIMARY_REPLACEMENT_CHAR));
                } else {
                    let w = choose|w: int|
                        pre.first_resolving(PRIMARY_REPLACEMENT_CHAR, w) && pre.family()[w] == replacement.0
                            && pre.face(replacement.0).glyph_infos()[PRIMARY_REPLACEMENT_CHAR] == replacement.1;
                    if w < i {
                        assert(!pre.face_glyphs_of(pre.family()[w]).contains_key(PRIMARY_REPLACEMENT_CHAR));
                    } else if w > i {
                        assert(!pre.face_glyphs_of(pre.family()[i]).contains_key(PRIMARY_REPLACEMENT_CHAR));
                    }
                }
            }
        }
        slf
    }
}

impl<F: FaceSource> Font<F> {
    /// The face and glyph that the family draws `c` with; `\n` (intentionally)
    /// comes out as the replacement glyph.
    pub fn glyph_info(&mut self, c: char) -> (r: (FontFaceKey, GlyphInfo))
        requires
            old(self).wf(),
        ensures
            family_resolve_post(*old(self), c, r, *final(self)),
            final(self).resolved().contains_key(c),
            final(self).resolved()[c] == r,
    {
        if let Some(found) = self.cached_family.glyph_info_cache.get(c) {
            return found;
        }
        let ghost before = *self;
        let found = self.glyph_info_no_cache_or_fallback(c);
        let r = match found {
            Some(f) => f,
            None => self.cached_family.replacement_glyph,
        };
        let ghost mid = *self;
        proof {
            if found is Some {
                let w = choose|i: int| mid.first_resolving(c, i) && mid.family()[i] == r.0;
                assert(mid.valid_key(mid.family()[w]));
            }
        }
        self.cached_family.glyph_info_cache.insert(c, r);
        proof {
            assert(self.fonts_by_id == mid.fonts_by_id);
            assert(self.family() == mid.family());
            assert forall|x: char| #[trigger] self.resolved().contains_key(x) && self.family().len() > 0 implies self.valid_key(
                self.resolved()[x].0,
            ) by {
                if x != c {
                    assert(mid.resolved().contains_key(x));
                }
            }
            assert(self.fonts_by_id == mid.fonts_by_id);
            if is_invisible_char(c) && before.family().len() > 0 {
                let k0 = before.family()[0];
                assert(before.valid_key(k0));
                assert(before.fonts_by_id@[k0.0 as int].wf());
                if found is Some {
                    let w = choose|w: int|
                        #[trigger] before.asked_in_order(mid, c, w, Some(r.1)) && w < before.family().len()
                            && before.family()[w] == r.0;
                    if w > 0 {
                        assert(before.face_answered(mid, c, 0, None::<GlyphInfo>));
                        before.face(k0).lemma_answer(c, None, mid.face(k0).glyph_infos());
                    } else {
                        before.face(k0).lemma_answer(c, Some(r.1), mid.face(k0).glyph_infos());
                    }
                } else {
                    assert(before.face_answered(mid, c, 0, None::<GlyphInfo>));
                    before.face(k0).lemma_answer(c, None, mid.face(k0).glyph_infos());
                }
            }
            assert forall|x: char| #[trigger] self.resolved().contains_key(x) && is_invisible_char(x) && self.family().len() > 0
                implies self.resolved()[x].1 == GlyphInfo::default_spec() by {
                if x != c {
                    assert(mid.resolved().contains_key(x));
                }
            }
            if found is Some {
                let w = choose|w: int|
                    #[trigger] before.asked_in_order(mid, c, w, Some(r.1)) && w < before.family().len()
                        && before.family()[w] == r.0;
                assert forall|j: int| 0 <= j < w implies #[trigger] before.face_answered(*self, c, j, None::<GlyphInfo>) by {
                    assert(before.face_answered(mid, c, j, None::<GlyphInfo>));
                }
                assert forall|j: int| w < j < before.family().len() implies #[trigger] self.face(before.family()[j]) == before.face(before.family()[j]) by {
                    assert(mid.face(before.family()[j]) == before.face(before.family()[j]));
                }
                assert(before.face_answered(mid, c, w, Some(r.1)));
                assert(before.asked_in_order(*self, c, w, Some(r.1)));
                let v = choose|i: int|
                    mid.first_resolving(c, i) && mid.family()[i] == r.0 && mid.face(r.0).glyph_infos()[c]
                        == r.1;
                assert(self.face_glyphs_of(self.family()[v]) == mid.face_glyphs_of(mid.family()[v]));
                assert forall|j: int| 0 <= j < v implies !#[trigger] self.face_glyphs_of(self.family()[j]).contains_key(c) by {
                    assert(self.face_glyphs_of(self.family()[j]) == mid.face_glyphs_of(mid.family()[j]));
                }
                assert(self.first_resolving(c, v));
                assert(r == (self.family()[v], self.face(self.family()[v]).glyph_infos()[c]));
            } else {
                assert forall|j: int| 0 <= j < before.family().len() implies #[trigger] before.face_answered(*self, c, j, None::<GlyphInfo>) by {
                    assert(before.face_answered(mid, c, j, None::<GlyphInfo>));
                }
                assert(before.asked_in_order(*self, c, before.family().len() as int, None));
                assert forall|i: int| !self.first_resolving(c, i) by {
                    if 0 <= i < self.family().len() {
                        assert(!mid.face_glyphs_of(mid.family()[i]).contains_key(c));
                        assert(self.face_glyphs_of(self.family()[i]) == mid.face_glyphs_of(mid.family()[i]));
                    }
                }
            }
            assert forall|x: char| #[trigger] self.resolved().contains_key(x) && self.resolved()[x].1.visible
                implies self.resolved()[x].1.id != 0 by {
                if x != c {
                    assert(mid.resolved().contains_key(x));
                }
            }
            assert(self.wf());
            assert(self.replacement() == before.replacement());
            assert(before.faces_grow(&*self));
            assert(self.resolved() == before.resolved().insert(c, r));
            assert(!before.resolved().contains_key(c));
            assert((exists|i: int| self.first_resolving(c, i)) ==> exists|i: int|
                self.first_resolving(c, i) && r == (self.family()[i], self.face(self.family()[i]).glyph_infos()[c]));
            assert(!(exists|i: int| self.first_resolving(c, i)) ==> r == self.replacement());
            assert(before == *old(self));
        }
        r
    }

    /// Can the family draw `c`? False exactly when `c` comes out as the
    /// replacement glyph, which includes asking for the replacement character
    /// itself.
    pub fn has_glyph(&mut self, c: char) -> (r: bool)
        requires
            old(self).wf(),
        ensures
            family_resolve_post(*old(self), c, final(self).resolved()[c], *final(self)),
            final(self).resolved().contains_key(c),
            r == (final(self).resolved()[c] != final(self).replacement()),
    {
        let found = self.glyph_info(c);
        let replacement = self.cached_family.replacement_glyph;
        !(found.0 == replacement.0 && found.1 == replacement.1)
    }

    /// Can the family draw every character of `s`? Stops at the first one it
    /// cannot draw.
    pub fn has_glyphs(&mut self, s: &str) -> (r: bool)
        requires
            old(self).wf(),
        ensures
            final(self).wf(),
            final(self).family() == old(self).family(),
            final(self).replacement() == old(self).replacement(),
            old(self).resolved().submap_of(final(self).resolved()),
            old(self).faces_grow(final(self)),
            exists|n: int| #[trigger] old(self).stopped_at(*final(self), s@, n) && (r <==> n == s@.len()),
    {
        let n = s.unicode_len();
        let mut i: usize = 0;
        while i < n
            invariant
                self.wf(),
                n == s@.len(),
                i <= n,
                self.family() == old(self).family(),
                self.replacement() == old(self).replacement(),
                old(self).resolved().submap_of(self.resolved()),
                old(self).faces_grow(self),
                forall|j: int| 0 <= j < i ==> self.resolved().contains_key(#[trigger] s@[j])
                    && self.resolved()[s@[j]] != self.replacement(),
                forall|x: char|
                    #[trigger] self.resolved().contains_key(x) <==> old(self).resolved().contains_key(x)
                        || in_prefix(s@, i as int, x),
            decreases n - i,
        {
            let ghost prev = *self;
            let c = s.get_char(i);
            let ok = self.has_glyph(c);
            proof {
                lemma_faces_grow_trans(*old(self), prev, *self);
                lemma_submap_trans(old(self).resolved(), prev.resolved(), self.resolved());
                assert forall|j: int| 0 <= j < i implies self.resolved().contains_key(#[trigger] s@[j])
                    && self.resolved()[s@[j]] != self.replacement() by {
                    assert(prev.resolved().contains_key(s@[j]));
                }
                assert forall|x: char|
                    #[trigger] self.resolved().contains_key(x) <==> old(self).resolved().contains_key(x)
                        || in_prefix(s@, i + 1, x) by {
                    if in_prefix(s@, i + 1, x) && !in_prefix(s@, i as int, x) {
                        assert(x == c);
                    }
                    if x == c {
                        assert(s@[i as int] == x);
                    }
                    if in_prefix(s@, i as int, x) {
                        let j = choose|j: int| 0 <= j < i && j < s@.len() && s@[j] == x;
                        assert(in_prefix(s@, i + 1, x));
                    }
                    if self.resolved().contains_key(x) && x != c {
                        assert(prev.resolved().contains_key(x));
                    }
                }
            }
            if !ok {
                assert(s@[i as int] == c);
                assert(forall|x: char|
                    #[trigger] self.resolved().contains_key(x) <==> old(self).resolved().contains_key(x)
                        || in_prefix(s@, i + 1, x));
                assert(old(self).stopped_at(*self, s@, i as int));
                return false;
            }
            i = i + 1;
        }
        proof {
            assert forall|x: char| in_prefix(s@, n + 1, x) implies in_prefix(s@, n as int, x) by {
                let j = choose|j: int| 0 <= j < n + 1 && j < s@.len() && s@[j] == x;
            }
            assert(forall|x: char|
                #[trigger] self.resolved().contains_key(x) <==> old(self).resolved().contains_key(x)
                    || in_prefix(s@, n + 1, x));
            let m = n as int;
            assert(0 <= m <= s@.len() && (true <==> m == s@.len()));
            assert(old(self).stopped_at(*self, s@, m));
        }
        true
    }

    /// Resolves every character of `s` ahead of use.
    pub fn preload_characters(&mut self, s: &str)
        requires
            old(self).wf(),
        ensures
            final(self).wf(),
            final(self).family() == old(self).family(),
            final(self).replacement() == old(self).replacement(),
            old(self).resolved().submap_of(final(self).resolved()),
            old(self).faces_grow(final(self)),
            forall|i: int| 0 <= i < s@.len() ==> final(self).resolved().contains_key(#[trigger] s@[i]),
    {
        let n = s.unicode_len();
        let mut i: usize = 0;
        while i < n
            invariant
                self.wf(),
                n == s@.len(),
                i <= n,
                self.family() == old(self).family(),
                self.replacement() == old(self).replacement(),
                old(self).resolved().submap_of(self.resolved()),
                old(self).faces_grow(self),
                forall|j: int| 0 <= j < i ==> self.resolved().contains_key(#[trigger] s@[j]),
            decreases n - i,
        {
            let ghost prev = *self;
            let c = s.get_char(i);
            self.glyph_info(c);
            proof {
                lemma_faces_grow_trans(*old(self), prev, *self);
                lemma_submap_trans(old(self).resolved(), prev.resolved(), self.resolved());
                assert forall|j: int| 0 <= j < i implies self.resolved().contains_key(#[trigger] s@[j]) by {
                    assert(prev.resolved().contains_key(s@[j]));
                }
            }
            i = i + 1;
        }
    }
}

/// The characters that [`Font::preload_common_characters`] resolves: printable
/// ASCII, the degree sign and the password mask.
pub open spec fn is_common_char(c: char) -> bool {
    (' ' <= c && c <= '~') || c == '\u{00B0}' || c == PASSWORD_REPLACEMENT_CHAR
}

impl<F: FaceSource> Font<F> {
    /// Resolves the printable ASCII characters (space through `~`), the degree
    /// sign and the password mask ahead of use.
    pub fn preload_common_characters(&mut self)
        requires
            old(self).wf(),
        ensures
            final(self).wf(),
            final(self).family() == old(self).family(),
            final(self).replacement() == old(self).replacement(),
            old(self).resolved().submap_of(final(self).resolved()),
            old(self).faces_grow(final(self)),
            forall|c: char| is_common_char(c) ==> #[trigger] final(self).resolved().contains_key(c),
    {
        let mut b: u8 = 32;
        while b <= 126
            invariant
                32 <= b <= 127,
                self.wf(),
                self.family() == old(self).family(),
                self.replacement() == old(self).replacement(),
                old(self).resolved().submap_of(self.resolved()),
                old(self).faces_grow(self),
                forall|x: u8| 32 <= x < b ==> #[trigger] self.resolved().contains_key(x as char),
            decreases 127 - b,
        {
            let ghost prev = *self;
            self.glyph_info(b as char);
            proof {
                lemma_faces_grow_trans(*old(self), prev, *self);
                lemma_submap_trans(old(self).resolved(), prev.resolved(), self.resolved());
                assert forall|x: u8| 32 <= x < b + 1 implies #[trigger] self.resolved().contains_key(x as char) by {
                    if x < b {
                        assert(prev.resolved().contains_key(x as char));
                    }
                }
            }
            b = b + 1;
        }
        let ghost ascii = *self;
        self.glyph_info('\u{00B0}');
        let ghost degree = *self;
        self.glyph_info(PASSWORD_REPLACEMENT_CHAR);
        proof {
            lemma_faces_grow_trans(*old(self), ascii, degree);
            lemma_faces_grow_trans(*old(self), degree, *self);
            assert forall|c: char| is_common_char(c) implies #[trigger] self.resolved().contains_key(c) by {
                if ' ' <= c && c <= '~' {
                    let x = c as u8;
                    assert(x as char == c);
                    assert(ascii.resolved().contains_key(x as char));
                    assert(degree.resolved().contains_key(c));
                } else if c == '\u{00B0}' {
                    assert(degree.resolved().contains_key(c));
                }
            }
        }
    }

    /// The face that draws `c` and its glyph; no face and the replacement
    /// glyph where the family has no faces.
    pub fn font_impl_and_glyph_info(&mut self, c: char) -> (r: (Option<FontFaceKey>, GlyphInfo))
        requires
            old(self).wf(),
        ensures
            old(self).family().len() == 0 ==> r == (None::<FontFaceKey>, old(self).replacement().1)
                && *final(self) == *old(self),
            old(self).family().len() > 0 ==> family_resolve_post(
                *old(self),
                c,
                final(self).resolved()[c],
                *final(self),
            ) && final(self).resolved().contains_key(c) && r == (
                Some(final(self).resolved()[c].0),
                final(self).resolved()[c].1,
            ) && final(self).valid_key(final(self).resolved()[c].0),
    {
        if self.cached_family.fonts.len() == 0 {
            return (None, self.cached_family.replacement_glyph.1);
        }
        let (key, info) = self.glyph_info(c);
        (Some(key), info)
    }

    /// The face that draws `c` and the glyph drawn at the pixel scale that
    /// `scale_for` gives for that face; see [`FontImpl::allocate_glyph`].
    /// No face and an invisible glyph where the family has no faces.
    pub fn font_impl_and_glyph_alloc<S: FnOnce(FontFaceKey) -> u32, R: FnOnce(GlyphInfo, u32) -> UvRect>(
        &mut self,
        c: char,
        scale_for: S,
        rasterize: R,
    ) -> (r: (Option<FontFaceKey>, GlyphAllocation))
        requires
            old(self).wf(),
            forall|k: FontFaceKey| scale_for.requires((k,)),
            forall|g: GlyphInfo, scale: u32| rasterize.requires((g, scale)),
        ensures
            final(self).wf(),
            old(self).family().len() == 0 ==> r == (None::<FontFaceKey>, GlyphAllocation::default_spec())
                && *final(self) == *old(self),
            old(self).family().len() > 0 ==> exists|mid: Font<F>, scale: u32|
                #[trigger] family_resolve_post(*old(self), c, mid.resolved()[c], mid)
                    && #[trigger] scale_for.ensures((mid.resolved()[c].0,), scale)
                    && mid.resolved().contains_key(c)
                    && r.0 == Some(mid.resolved()[c].0)
                    && mid.valid_key(mid.resolved()[c].0)
                    && mid.draws_only(*final(self), mid.resolved()[c].0)
                    && allocate_post(
                    mid.resolved()[c].1,
                    scale,
                    rasterize,
                    mid.face(mid.resolved()[c].0).allocations(),
                    r.1,
                    final(self).face(mid.resolved()[c].0).allocations(),
                ),
    {
        if self.cached_family.fonts.len() == 0 {
            return (None, GlyphAllocation::default());
        }
        let (key, info) = self.glyph_info(c);
        let scale = scale_for(key);
        let ghost mid = *self;
        let a = self.fonts_by_id[key.0].allocate_glyph(info, scale, rasterize);
        proof {
            assert(self.fonts_by_id@ == mid.fonts_by_id@.update(key.0 as int, self.fonts_by_id@[key.0 as int]));
            assert(mid.draws_only(*self, key));
            assert(self.cached_family == mid.cached_family);
            assert forall|i: int| 0 <= i < self.fonts_by_id@.len() implies #[trigger] self.fonts_by_id@[i].wf() by {
                if i != key.0 {
                    assert(mid.fonts_by_id@[i].wf());
                }
            }
            assert(scale_for.ensures((self.resolved()[c].0,), scale));
        }
        (Some(key), a)
    }

    /// The face under `key`.
    pub fn font_impl(&self, key: FontFaceKey) -> (r: &FontImpl<F>)
        requires
            self.valid_key(key),
        ensures
            *r == self.face(key),
    {
        &self.fonts_by_id[key.0]
    }

    /// The family's first face, which gives its row metrics; `None` for a
    /// family with no faces.
    pub fn first_font(&self) -> (r: Option<&FontImpl<F>>)
        requires
            self.wf(),
        ensures
            self.family().len() == 0 ==> r is None,
            self.family().len() > 0 ==> r == Some(&self.face(self.family()[0])),
    {
        if self.cached_family.fonts.len() == 0 {
            None
        } else {
            Some(&self.fonts_by_id[self.cached_family.fonts[0].0])
        }
    }

    /// The keys of the family's faces, in fallback order.
    pub fn family_keys(&self) -> (r: &Vec<FontFaceKey>)
        ensures
            r@ == self.family(),
    {
        &self.cached_family.fonts
    }

    /// What the family draws for characters that none of its faces maps.
    pub fn replacement_glyph(&self) -> (r: (FontFaceKey, GlyphInfo))
        ensures
            r == self.replacement(),
    {
        self.cached_family.replacement_glyph
    }
}

impl<F: FaceSource> Font<F> {
    /// The family-wide character index, once it has been built.
    pub closed spec fn characters_cache(&self) -> Option<Seq<(char, Vec<String>)>> {
        if self.cached_family.characters_built {
            Some(self.cached_family.characters@)
        } else {
            None
        }
    }

    /// Is `faces` the family's faces in order, each with its name and some
    /// characters that its face does not ignore?
    pub open spec fn lists_face_characters(&self, faces: Seq<(String, Vec<char>)>) -> bool {
        &&& faces.len() == self.family().len()
        &&& forall|j: int| 0 <= j < faces.len() ==> (#[trigger] faces[j]).0@ == self.family_names()[j]
        &&& forall|j: int, x: char|
            0 <= j < faces.len() && #[trigger] faces[j].1@.contains(x) ==> !is_ignored_char(faces[j].0@, x)
    }

    /// The names of the family's faces, in family order.
    pub open spec fn family_names(&self) -> Seq<Seq<char>> {
        Seq::new(self.family().len(), |j: int| self.face(self.family()[j]).name_spec())
    }

    /// Every character some face of the family supports, with the names of the
    /// faces that have it, in family order. Built on first use and kept.
    pub fn characters(&mut self) -> (r: &Vec<(char, Vec<String>)>)
        requires
            old(self).wf(),
        ensures
            final(self).wf(),
            final(self).num_faces() == old(self).num_faces(),
            forall|k: FontFaceKey| #[trigger] final(self).face(k) == old(self).face(k),
            final(self).family() == old(self).family(),
            final(self).replacement() == old(self).replacement(),
            final(self).resolved() == old(self).resolved(),
            old(self).characters_cache() matches Some(v) ==> r@ == v,
            final(self).characters_cache() == Some(r@),
            old(self).characters_cache() is None ==> exists|faces: Seq<(String, Vec<char>)>|
                #[trigger] is_merged_index(faces, r@) && final(self).lists_face_characters(faces),
    {
        if !self.cached_family.characters_built {
            let ghost before = *self;
            let faces = self.face_characters();
            let built = merge_characters(&faces);
            self.cached_family.characters = built;
            self.cached_family.characters_built = true;
            proof {
                assert(self.fonts_by_id == before.fonts_by_id);
                assert(self.family() == before.family());
                assert(self.family_names() =~= before.family_names());
                assert(self.resolved() == before.resolved());
                assert(self.replacement() == before.replacement());
                assert(self.cached_family.characters@ == built@);
                assert(self.lists_face_characters(faces@));
            }
        }
        &self.cached_family.characters
    }

    /// Each face of the family, in order, with its name and the characters it
    /// supports.
    fn face_characters(&self) -> (r: Vec<(String, Vec<char>)>)
        requires
            self.wf(),
        ensures
            self.lists_face_characters(r@),
    {
        let mut faces: Vec<(String, Vec<char>)> = Vec::new();
        let n = self.cached_family.fonts.len();
        let mut i: usize = 0;
        while i < n
            invariant
                self.wf(),
                n == self.family().len(),
                i <= n,
                faces@.len() == i,
                forall|j: int| 0 <= j < i ==> (#[trigger] faces@[j]).0@ == self.family_names()[j],
                forall|j: int, x: char|
                    0 <= j < i && #[trigger] faces@[j].1@.contains(x) ==> !is_ignored_char(faces@[j].0@, x),
            decreases n - i,
        {
            let key = self.cached_family.fonts[i];
            assert(self.valid_key(key));
            let font = &self.fonts_by_id[key.0];
            let chars = font.characters();
            let name = font.name_owned();
            let ghost pre = faces@;
            faces.push((name, chars));
            proof {
                assert forall|j: int, x: char|
                    0 <= j < i + 1 && #[trigger] faces@[j].1@.contains(x) implies !is_ignored_char(faces@[j].0@, x) by {
                    if j < i {
                        assert(faces@[j] == pre[j]);
                    } else {
                        let k = choose|k: int| 0 <= k < chars@.len() && chars@[k] == x;
                    }
                }
                assert forall|j: int| 0 <= j < i + 1 implies (#[trigger] faces@[j]).0@ == self.family_names()[j] by {
                    if j < i {
                        assert(faces@[j] == pre[j]);
                    }
                }
            }
            i = i + 1;
        }
        faces
    }
}

} // verus!
