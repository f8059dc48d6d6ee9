use vstd::prelude::*;

verus! {

/// Side of the atlas texture before it ever grows.
pub const INITIAL_ATLAS_SIZE: u32 = 512;

/// Largest side the atlas grows to: eight doublings of the initial size.
pub const MAX_ATLAS_SIZE: u32 = 131_072;

/// A rasterised glyph as the atlas keys it: font, glyph index and pixel size.
#[derive(Clone, Copy, Debug, PartialEq, Eq, Structural)]
pub struct GlyphKey {
    pub font_id: usize,
    pub id: u16,
    pub size: u32,
}

/// What the renderer does after a packing pass overflowed the atlas.
#[derive(Clone, Copy, Debug, PartialEq, Eq, Structural)]
pub enum AtlasStep {
    /// Rebuild the texture at this side and pack the same glyphs again.
    Grow(u32),
    /// The atlas is at its largest; the staged glyphs are dropped for this frame.
    GiveUp,
}

/// `q` with `k` staged: unchanged when `k` is already there.
pub open spec fn staged(q: Seq<GlyphKey>, k: GlyphKey) -> Seq<GlyphKey> {
    if q.contains(k) { q } else { q.push(k) }
}

/// Sizes the atlas takes: the initial size doubled a whole number of times, up to the largest.
pub open spec fn valid_atlas_size(s: u32) -> bool {
    s == 512 || s == 1024 || s == 2048 || s == 4096 || s == 8192 || s == 16384 || s == 32768
        || s == 65536 || s == 131072
}

/// `b` is `a` after an overflow below the largest size: twice the side, nothing
/// resident, the same glyphs staged.
pub open spec fn grew(a: GlyphAtlas, b: GlyphAtlas) -> bool {
    &&& a.spec_tex_size() < MAX_ATLAS_SIZE
    &&& b.spec_tex_size() == 2 * a.spec_tex_size()
    &&& b.spec_queued() == a.spec_queued()
    &&& b.spec_resident() == Seq::<GlyphKey>::empty()
}

/// `b` is `a` after a successful packing pass.
pub open spec fn packed_from(a: GlyphAtlas, b: GlyphAtlas) -> bool {
    &&& b.spec_resident() == a.spec_queued()
    &&& b.spec_queued() == Seq::<GlyphKey>::empty()
    &&& b.spec_tex_size() == a.spec_tex_size()
}

/// Book-keeping of the glyph atlas: which glyphs are staged for the next packing pass,
/// which are resident in the texture, and the texture's side. The packing itself is
/// done by the caller's cache; this records its outcomes.
pub struct GlyphAtlas {
    tex_size: u32,
    queued: Vec<GlyphKey>,
    resident: Vec<GlyphKey>,
}

impl GlyphAtlas {
    pub closed spec fn spec_tex_size(&self) -> u32 {
        self.tex_size
    }

    /// Glyphs staged for the next packing pass, in staging order.
    pub closed spec fn spec_queued(&self) -> Seq<GlyphKey> {
        self.queued@
    }

    /// Glyphs the last successful pass packed.
    pub closed spec fn spec_resident(&self) -> Seq<GlyphKey> {
        self.resident@
    }

    pub open spec fn wf(&self) -> bool {
        &&& valid_atlas_size(self.spec_tex_size())
        &&& self.spec_queued().no_duplicates()
        &&& self.spec_resident().no_duplicates()
    }

    /// An empty atlas of the initial size.
    pub fn new() -> (r: GlyphAtlas)
        ensures
            r.wf(),
            r.spec_tex_size() == INITIAL_ATLAS_SIZE,
            r.spec_queued() == Seq::<GlyphKey>::empty(),
            r.spec_resident() == Seq::<GlyphKey>::empty(),
    {
        GlyphAtlas { tex_size: INITIAL_ATLAS_SIZE, queued: Vec::new(), resident: Vec::new() }
    }

    pub fn tex_size(&self) -> (r: u32)
        ensures
            r == self.spec_tex_size(),
    {
        self.tex_size
    }

    /// Number of glyphs staged for the next pass.
    pub fn queued_len(&self) -> (r: usize)
        ensures
            r == self.spec_queued().len(),
    {
        self.queued.len()
    }

    /// Number of glyphs resident in the texture.
    pub fn resident_len(&self) -> (r: usize)
        ensures
            r == self.spec_resident().len(),
    {
        self.resident.len()
    }

    /// Stages `key` for the next packing pass; staging a glyph twice stages it once.
    pub fn queue(&mut self, key: GlyphKey)
        requires
            old(self).wf(),
        ensures
            final(self).wf(),
            final(self).spec_queued() == staged(old(self).spec_queued(), key),
            final(self).spec_resident() == old(self).spec_resident(),
            final(self).spec_tex_size() == old(self).spec_tex_size(),
    {
        if !contains_key(&self.queued, key) {
            self.queued.push(key);
            proof {
                let q = self.queued@;
                assert forall|i: int, j: int| 0 <= i < j < q.len() implies q[i] != q[j] by {
                    if j == q.len() - 1 {
                        assert(old(self).spec_queued()[i] == q[i]);
                    } else {
                        assert(old(self).spec_queued()[i] == q[i]);
                        assert(old(self).spec_queued()[j] == q[j]);
                    }
                }
            }
        }
    }

    /// Records a successful packing pass: every staged glyph is now resident, and the
    /// staging list is empty.
    pub fn packed(&mut self)
        requires
            old(self).wf(),
        ensures
            final(self).wf(),
            packed_from(*old(self), *final(self)),
    {
        let mut staged_keys: Vec<GlyphKey> = Vec::new();
        std::mem::swap(&mut staged_keys, &mut self.queued);
        self.resident = staged_keys;
    }

    /// Records a packing pass that ran out of room. Below the largest size the texture
    /// doubles, the old contents are discarded and the staged glyphs stay staged for the
    /// next pass; at the largest size the staged glyphs are dropped.
    pub fn overflowed(&mut self) -> (r: AtlasStep)
        requires
            old(self).wf(),
        ensures
            final(self).wf(),
            final(self).spec_resident() == Seq::<GlyphKey>::empty(),
            old(self).spec_tex_size() < MAX_ATLAS_SIZE ==> r == AtlasStep::Grow(
                (2 * old(self).spec_tex_size()) as u32,
            ),
            old(self).spec_tex_size() < MAX_ATLAS_SIZE ==> grew(*old(self), *final(self)),
            old(self).spec_tex_size() >= MAX_ATLAS_SIZE ==> r == AtlasStep::GiveUp,
            old(self).spec_tex_size() >= MAX_ATLAS_SIZE ==> final(self).spec_tex_size() == old(
                self).spec_tex_size(),
            old(self).spec_tex_size() >= MAX_ATLAS_SIZE ==> final(self).spec_queued() == Seq::<
                GlyphKey,
            >::empty(),
    {
        self.resident = Vec::new();
        if self.tex_size < MAX_ATLAS_SIZE {
            self.tex_size = self.tex_size * 2;
            AtlasStep::Grow(self.tex_size)
        } else {
            self.queued = Vec::new();
            AtlasStep::GiveUp
        }
    }

    /// Whether the last successful pass packed `key`.
    pub fn is_resident(&self, key: GlyphKey) -> (r: bool)
        ensures
            r == self.spec_resident().contains(key),
    {
        contains_key(&self.resident, key)
    }
}

fn contains_key(v: &Vec<GlyphKey>, key: GlyphKey) -> (r: bool)
    ensures
        r == v@.contains(key),
{
    let mut i: usize = 0;
    while i < v.len()
        invariant
            i <= v@.len(),
            forall|j: int| 0 <= j < i ==> v@[j] != key,
        decreases v@.len() - i,
    {
        if v[i] == key {
            return true;
        }
        i = i + 1;
    }
    false
}

/// Growing the atlas loses no glyph: however many times a pass overflows and the atlas
/// grows, the pass that finally succeeds leaves every glyph staged before the first
/// attempt resident.
pub proof fn lemma_growth_keeps_glyphs(attempts: Seq<GlyphAtlas>, done: GlyphAtlas)
    requires
        attempts.len() > 0,
        forall|i: int| 0 <= i < attempts.len() - 1 ==> grew(#[trigger] attempts[i], attempts[i + 1]),
        packed_from(attempts.last(), done),
    ensures
        forall|k: GlyphKey| attempts[0].spec_queued().contains(k) ==> done.spec_resident().contains(k),
        done.spec_resident() == attempts[0].spec_queued(),
    decreases attempts.len(),
{
    if attempts.len() > 1 {
        let rest = attempts.drop_first();
        assert forall|i: int| 0 <= i < rest.len() - 1 implies grew(#[trigger] rest[i], rest[i + 1]) by {
            assert(grew(attempts[i + 1], attempts[i + 2]));
        }
        lemma_growth_keeps_glyphs(rest, done);
        assert(grew(attempts[0], attempts[1]));
    }
}

/// Staging a glyph a second time before a pass changes nothing, and the staging list
/// then holds it exactly once.
pub proof fn lemma_queue_idempotent(q: Seq<GlyphKey>, k: GlyphKey)
    requires
        q.no_duplicates(),
    ensures
        staged(staged(q, k), k) == staged(q, k),
        staged(q, k).to_multiset().count(k) == 1,
{
    let s = staged(q, k);
    if !q.contains(k) {
        assert(s[q.len() as int] == k);
        assert forall|i: int, j: int| 0 <= i < j < s.len() implies s[i] != s[j] by {
            if j == q.len() {
                assert(s[i] == q[i]);
            } else {
                assert(s[i] == q[i]);
                assert(s[j] == q[j]);
            }
        }
        assert(s.contains(k));
    }
    assert(s.no_duplicates());
    assert(s.contains(k));
    s.to_multiset_ensures();
    s.lemma_multiset_has_no_duplicates();
}

} // verus!
