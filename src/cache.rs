use vstd::prelude::*;
use crate::glyph::{GlyphAllocation, GlyphInfo};

verus! {

/// An append-only map from characters to values: entries are added, never
/// changed or removed. Held in a hash map keyed by the character's scalar
/// value.
pub struct CharMap<V> {
    entries: std::collections::HashMap<u32, V>,
    map: Ghost<Map<char, V>>,
}

impl<V: Copy> View for CharMap<V> {
    type V = Map<char, V>;

    closed spec fn view(&self) -> Map<char, V> {
        self.map@
    }
}

impl<V: Copy> CharMap<V> {
    /// The hash map holds each character of the map under its scalar value.
    pub closed spec fn wf(&self) -> bool {
        forall|c: char|
            #[trigger] self.map@.contains_key(c) <==> self.entries@.contains_key(c as u32)
                && (self.map@.contains_key(c) ==> self.map@[c] == self.entries@[c as u32])
    }

    pub fn new() -> (r: Self)
        ensures
            r.wf(),
            r@ == Map::<char, V>::empty(),
    {
        CharMap { entries: std::collections::HashMap::new(), map: Ghost(Map::empty()) }
    }

    /// The value stored for `c`, if any.
    pub fn get(&self, c: char) -> (r: Option<V>)
        requires
            self.wf(),
        ensures
            r == (if self@.contains_key(c) { Some(self@[c]) } else { None::<V> }),
    {
        broadcast use vstd::std_specs::hash::group_hash_axioms;

        let k: u32 = c as u32;
        match self.entries.get(&k) {
            Some(v) => {
                assert(self.map@.contains_key(c));
                Some(*v)
            },
            None => None,
        }
    }

    /// Stores `v` for `c`, which has no value yet.
    pub fn insert(&mut self, c: char, v: V)
        requires
            old(self).wf(),
            !old(self)@.contains_key(c),
        ensures
            final(self).wf(),
            final(self)@ == old(self)@.insert(c, v),
    {
        broadcast use vstd::std_specs::hash::group_hash_axioms;

        let ghost old_map = self.map@;
        let ghost old_entries = self.entries@;
        let k: u32 = c as u32;
        self.entries.insert(k, v);
        self.map = Ghost(self.map@.insert(c, v));
        assert forall|d: char|
            #[trigger] self.map@.contains_key(d) <==> self.entries@.contains_key(d as u32)
                && (self.map@.contains_key(d) ==> self.map@[d] == self.entries@[d as u32]) by {
            if d != c {
                vstd::utf8::char_u32_cast(d, d as u32);
                vstd::utf8::char_u32_cast(c, c as u32);
                assert(d as u32 != c as u32);
                assert(old_map.contains_key(d) <==> old_entries.contains_key(d as u32));
            }
        }
    }
}

/// The key of a drawn glyph: the glyph and the rounded pixel scale.
pub type AllocKey = (GlyphInfo, u32);

/// The hash key of a glyph at a scale: its fields side by side in one integer.
pub open spec fn pack_spec(info: GlyphInfo, scale: u32) -> u128 {
    (info.id as u128) | ((info.advance_width_unscaled as u128) << 16u128) | ((if info.visible {
        1u128
    } else {
        0u128
    }) << 48u128) | ((scale as u128) << 49u128)
}

/// Different glyphs or scales have different keys.
pub proof fn lemma_pack_injective(a: GlyphInfo, sa: u32, b: GlyphInfo, sb: u32)
    requires
        pack_spec(a, sa) == pack_spec(b, sb),
    ensures
        a == b && sa == sb,
{
    let (ia, ib) = (a.id as u128, b.id as u128);
    let (wa, wb) = (a.advance_width_unscaled as u128, b.advance_width_unscaled as u128);
    let va: u128 = if a.visible { 1 } else { 0 };
    let vb: u128 = if b.visible { 1 } else { 0 };
    let (xa, xb) = (sa as u128, sb as u128);
    assert(ia < 0x10000 && ib < 0x10000 && wa < 0x1_0000_0000 && wb < 0x1_0000_0000 && va < 2 && vb < 2
        && xa < 0x1_0000_0000 && xb < 0x1_0000_0000);
    assert((ia | (wa << 16u128) | (va << 48u128) | (xa << 49u128)) == (ib | (wb << 16u128) | (vb << 48u128)
        | (xb << 49u128)) && ia < 0x10000 && ib < 0x10000 && wa < 0x1_0000_0000 && wb < 0x1_0000_0000 && va < 2
        && vb < 2 && xa < 0x1_0000_0000 && xb < 0x1_0000_0000 ==> ia == ib && wa == wb && va == vb && xa == xb)
        by (bit_vector);
}

/// The hash key of `info` at `scale`.
pub fn pack(info: GlyphInfo, scale: u32) -> (r: u128)
    ensures
        r == pack_spec(info, scale),
{
    let v: u128 = if info.visible { 1 } else { 0 };
    (info.id as u128) | ((info.advance_width_unscaled as u128) << 16u128) | (v << 48u128) | ((scale as u128)
        << 49u128)
}

/// An append-only map from (glyph, pixel scale) to the glyph drawn at that
/// scale: a glyph is drawn once per scale. Held in a hash map keyed by
/// [`pack`].
pub struct AllocCache {
    entries: std::collections::HashMap<u128, GlyphAllocation>,
    map: Ghost<Map<AllocKey, GlyphAllocation>>,
}

impl View for AllocCache {
    type V = Map<AllocKey, GlyphAllocation>;

    closed spec fn view(&self) -> Map<AllocKey, GlyphAllocation> {
        self.map@
    }
}

impl AllocCache {
    /// The hash map holds each key of the map under its packed form.
    pub closed spec fn wf(&self) -> bool {
        forall|k: AllocKey|
            #[trigger] self.map@.contains_key(k) <==> self.entries@.contains_key(pack_spec(k.0, k.1))
                && (self.map@.contains_key(k) ==> self.map@[k] == self.entries@[pack_spec(k.0, k.1)])
    }

    pub fn new() -> (r: Self)
        ensures
            r.wf(),
            r@ == Map::<AllocKey, GlyphAllocation>::empty(),
    {
        AllocCache { entries: std::collections::HashMap::new(), map: Ghost(Map::empty()) }
    }

    /// The glyph stored for `info` at `scale`, if any.
    pub fn get(&self, info: GlyphInfo, scale: u32) -> (r: Option<GlyphAllocation>)
        requires
            self.wf(),
        ensures
            r == (if self@.contains_key((info, scale)) {
                Some(self@[(info, scale)])
            } else {
                None::<GlyphAllocation>
            }),
    {
        broadcast use vstd::std_specs::hash::group_hash_axioms;

        let k = pack(info, scale);
        assert(self.map@.contains_key((info, scale)) <==> self.entries@.contains_key(k));
        match self.entries.get(&k) {
            Some(a) => Some(*a),
            None => None,
        }
    }

    /// Stores `a` for `info` at `scale`, which has no value yet.
    pub fn insert(&mut self, info: GlyphInfo, scale: u32, a: GlyphAllocation)
        requires
            old(self).wf(),
            !old(self)@.contains_key((info, scale)),
        ensures
            final(self).wf(),
            final(self)@ == old(self)@.insert((info, scale), a),
    {
        broadcast use vstd::std_specs::hash::group_hash_axioms;

        let ghost old_map = self.map@;
        let ghost old_entries = self.entries@;
        let k = pack(info, scale);
        self.entries.insert(k, a);
        self.map = Ghost(self.map@.insert((info, scale), a));
        assert forall|q: AllocKey|
            #[trigger] self.map@.contains_key(q) <==> self.entries@.contains_key(pack_spec(q.0, q.1))
                && (self.map@.contains_key(q) ==> self.map@[q] == self.entries@[pack_spec(q.0, q.1)]) by {
            if q != (info, scale) {
                if pack_spec(q.0, q.1) == k {
                    lemma_pack_injective(q.0, q.1, info, scale);
                }
                assert(old_map.contains_key(q) <==> old_entries.contains_key(pack_spec(q.0, q.1)));
            }
        }
    }
}

} // verus!
