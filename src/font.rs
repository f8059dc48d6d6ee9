use vstd::prelude::*;

verus! {

/// Metrics of one glyph of a font, in font units.
#[derive(Clone, Copy, Debug, PartialEq, Eq, Structural)]
pub struct GlyphEntry {
    /// The character this glyph draws.
    pub ch: char,
    /// Glyph index; 0 is the "missing glyph".
    pub id: u16,
    pub advance: u16,
    pub left_side_bearing: i16,
}

/// Pair kerning between two glyphs of one font, in font units.
#[derive(Clone, Copy, Debug, PartialEq, Eq, Structural)]
pub struct KerningEntry {
    pub left: u16,
    pub right: u16,
    pub adjust: i16,
}

/// What layout reads of a font: its character map with glyph metrics, its kerning
/// pairs and its vertical metrics, all in font units.
#[derive(Clone, Debug)]
pub struct FontFace {
    pub glyphs: Vec<GlyphEntry>,
    /// Advance of the missing glyph, drawn for characters the map does not cover.
    pub notdef_advance: u16,
    pub notdef_left_side_bearing: i16,
    pub kerning: Vec<KerningEntry>,
    /// Height of the capital `N` above the baseline.
    pub cap_height: i16,
    pub ascent: i16,
    /// Depth below the baseline; negative for ordinary fonts.
    pub descent: i16,
    pub line_gap: i16,
}

/// First entry of the character map for `c`.
pub open spec fn find_glyph(glyphs: Seq<GlyphEntry>, c: char) -> Option<GlyphEntry>
    decreases glyphs.len(),
{
    if glyphs.len() == 0 {
        None
    } else if glyphs[0].ch == c {
        Some(glyphs[0])
    } else {
        find_glyph(glyphs.drop_first(), c)
    }
}

/// First kerning entry for the pair `(left, right)`.
pub open spec fn find_kerning(pairs: Seq<KerningEntry>, left: u16, right: u16) -> Option<
    KerningEntry,
>
    decreases pairs.len(),
{
    if pairs.len() == 0 {
        None
    } else if pairs[0].left == left && pairs[0].right == right {
        Some(pairs[0])
    } else {
        find_kerning(pairs.drop_first(), left, right)
    }
}

impl FontFace {
    /// Cap height plus descent depth: the span that style normalisation maps to the
    /// requested size. `1 / normalised_height` is the font's height normalisation.
    pub open spec fn spec_normalised_height(&self) -> int {
        self.cap_height - self.descent
    }

    /// Ascent plus descent depth: the span an unnormalised scale maps to the size.
    pub open spec fn spec_em_height(&self) -> int {
        self.ascent - self.descent
    }

    pub open spec fn wf(&self) -> bool {
        self.spec_normalised_height() > 0 && self.spec_em_height() > 0
    }

    /// The glyph drawn for `c`: its map entry, or the missing glyph.
    pub open spec fn spec_glyph(&self, c: char) -> GlyphEntry {
        match find_glyph(self.glyphs@, c) {
            Some(e) => e,
            None => GlyphEntry {
                ch: c,
                id: 0,
                advance: self.notdef_advance,
                left_side_bearing: self.notdef_left_side_bearing,
            },
        }
    }

    /// Kerning between two glyph ids, zero where no pair is listed.
    pub open spec fn spec_kerning(&self, left: u16, right: u16) -> int {
        match find_kerning(self.kerning@, left, right) {
            Some(k) => k.adjust as int,
            None => 0,
        }
    }

    /// Whether the face is well formed: positive normalised and em heights.
    pub fn is_valid(&self) -> (r: bool)
        ensures
            r == self.wf(),
    {
        (self.cap_height as i32) - (self.descent as i32) > 0 && (self.ascent as i32) - (
        self.descent as i32) > 0
    }

    /// Looks `c` up in the character map; a character it lacks gets the missing glyph.
    pub fn glyph(&self, c: char) -> (r: GlyphEntry)
        ensures
            r == self.spec_glyph(c),
    {
        let mut i: usize = 0;
        assert(self.glyphs@.subrange(0, self.glyphs@.len() as int) =~= self.glyphs@);
        while i < self.glyphs.len()
            invariant
                i <= self.glyphs@.len(),
                find_glyph(self.glyphs@, c) == find_glyph(
                    self.glyphs@.subrange(i as int, self.glyphs@.len() as int),
                    c,
                ),
            decreases self.glyphs@.len() - i,
        {
            let e = self.glyphs[i];
            let ghost rest = self.glyphs@.subrange(i as int, self.glyphs@.len() as int);
            assert(rest.drop_first() =~= self.glyphs@.subrange(i + 1, self.glyphs@.len() as int));
            if e.ch == c {
                return e;
            }
            i = i + 1;
        }
        GlyphEntry {
            ch: c,
            id: 0,
            advance: self.notdef_advance,
            left_side_bearing: self.notdef_left_side_bearing,
        }
    }

    /// Pair kerning between two glyph ids of this font.
    pub fn kerning(&self, left: u16, right: u16) -> (r: i16)
        ensures
            r == self.spec_kerning(left, right),
    {
        let mut i: usize = 0;
        assert(self.kerning@.subrange(0, self.kerning@.len() as int) =~= self.kerning@);
        while i < self.kerning.len()
            invariant
                i <= self.kerning@.len(),
                find_kerning(self.kerning@, left, right) == find_kerning(
                    self.kerning@.subrange(i as int, self.kerning@.len() as int),
                    left,
                    right,
                ),
            decreases self.kerning@.len() - i,
        {
            let k = self.kerning[i];
            let ghost rest = self.kerning@.subrange(i as int, self.kerning@.len() as int);
            assert(rest.drop_first() =~= self.kerning@.subrange(i + 1, self.kerning@.len() as int));
            if k.left == left && k.right == right {
                return k.adjust;
            }
            i = i + 1;
        }
        0
    }
}

} // verus!
