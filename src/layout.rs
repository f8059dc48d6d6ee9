use vstd::prelude::*;
use vstd::std_specs::iter::IteratorSpec;
use crate::font::{FontFace, GlyphEntry};

verus! {

broadcast use vstd::string::group_string_axioms;

/// Longest text, in characters, that one layout call accepts. A glyph may advance the pen
/// by up to `MAX_GLYPH_STEP`, so a line spans at most 2^53 layout units; anchored and
/// converted to device units at up to 65.535 device pixels per pixel, that still fits `i64`.
pub const MAX_TEXT_CHARS: usize = 1_048_576;

/// Bound on one glyph's advance plus kerning, in layout units.
pub const MAX_GLYPH_STEP: u64 = 0x2_0000_0000;

/// A glyph chosen for a character, with the scale it is drawn at: one font unit spans
/// `size / unit_divisor` layout units.
#[derive(Clone, Copy, Debug, PartialEq, Eq, Structural)]
pub struct Glyph {
    pub font_id: usize,
    pub id: u16,
    pub size: u32,
    pub unit_divisor: u32,
}

/// Vertical metrics of a style at a size, in layout units.
#[derive(Clone, Copy, Debug, PartialEq, Eq, Structural)]
pub struct VMetrics {
    pub ascent: i64,
    pub descent: i64,
    pub line_gap: i64,
}

/// Measured and positioned text.
#[derive(Clone, Debug)]
pub struct LaidOutText {
    pub width: i64,
    pub left_side_bearing: i64,
    pub vertical: VMetrics,
    /// Each glyph with its horizontal offset from the start of the text.
    pub glyphs: Vec<(i64, Glyph)>,
}

/// Horizontal anchoring of a line relative to the `x` it is drawn at.
#[derive(Clone, Copy, Debug, PartialEq, Eq, Structural)]
pub enum Alignment {
    Left,
    Center,
    Right,
}

/// A font registered in a style, with its id and its normalised height
/// (cap height plus descent depth, in font units).
#[derive(Clone, Debug)]
pub struct StyleFont {
    pub font_id: usize,
    pub face: FontFace,
    pub height: u32,
}

impl StyleFont {
    pub open spec fn wf(&self) -> bool {
        &&& self.face.wf()
        &&& self.height == self.face.spec_normalised_height()
    }
}

/// `units` font units at `size / divisor` layout units each, rounded down.
pub open spec fn scale_units(units: int, size: int, divisor: int) -> int {
    (units * size) / divisor
}

/// Index of the first font of the chain, from `from` on, that maps `c` to a real glyph.
pub open spec fn covering_font(fonts: Seq<StyleFont>, c: char, from: int) -> Option<int>
    decreases fonts.len() - from,
{
    if from < 0 || from >= fonts.len() {
        None
    } else if fonts[from].face.spec_glyph(c).id != 0 {
        Some(from)
    } else {
        covering_font(fonts, c, from + 1)
    }
}

/// The font chosen for `c`: the first that covers it, else the first font of the chain.
pub open spec fn picked_index(fonts: Seq<StyleFont>, c: char) -> int {
    match covering_font(fonts, c, 0) {
        Some(i) => i,
        None => 0,
    }
}

/// The glyph entry drawn for `c`.
pub open spec fn picked_entry(fonts: Seq<StyleFont>, c: char) -> GlyphEntry {
    fonts[picked_index(fonts, c)].face.spec_glyph(c)
}

/// Divisor of the scale `c` is drawn at: the normalised height of the covering font;
/// where no font covers `c`, the first font's ascent-to-descent span (unnormalised).
pub open spec fn picked_divisor(fonts: Seq<StyleFont>, c: char) -> int {
    match covering_font(fonts, c, 0) {
        Some(i) => fonts[i].height as int,
        None => fonts[0].face.spec_em_height(),
    }
}

/// The glyph laid out for `c` at `size`.
pub open spec fn spec_glyph_for(fonts: Seq<StyleFont>, c: char, size: int) -> Glyph {
    Glyph {
        font_id: fonts[picked_index(fonts, c)].font_id,
        id: picked_entry(fonts, c).id,
        size: size as u32,
        unit_divisor: picked_divisor(fonts, c) as u32,
    }
}

/// Advance width of the glyph for `c`, in layout units.
pub open spec fn advance_of(fonts: Seq<StyleFont>, c: char, size: int) -> int {
    scale_units(picked_entry(fonts, c).advance as int, size, picked_divisor(fonts, c))
}

/// Kerning between the glyph for `prev` and the glyph for `c`; zero across fonts.
pub open spec fn kerning_between(fonts: Seq<StyleFont>, prev: char, c: char, size: int) -> int {
    if fonts[picked_index(fonts, prev)].font_id == fonts[picked_index(fonts, c)].font_id {
        scale_units(
            fonts[picked_index(fonts, c)].face.spec_kerning(
                picked_entry(fonts, prev).id,
                picked_entry(fonts, c).id,
            ) as int,
            size,
            picked_divisor(fonts, c),
        )
    } else {
        0
    }
}

/// Pen position after laying out `text`: the advances plus the kerning of each pair of
/// neighbours.
pub open spec fn pen(fonts: Seq<StyleFont>, text: Seq<char>, size: int) -> int
    decreases text.len(),
{
    if text.len() == 0 {
        0
    } else {
        let prefix = text.drop_last();
        pen(fonts, prefix, size) + advance_of(fonts, text.last(), size) + (if prefix.len() > 0 {
            kerning_between(fonts, prefix.last(), text.last(), size)
        } else {
            0
        })
    }
}

/// Offset of glyph `i` of `text`: the pen position after the glyphs before it, moved by
/// the kerning between glyph `i - 1` and glyph `i`.
pub open spec fn glyph_offset(fonts: Seq<StyleFont>, text: Seq<char>, i: int, size: int) -> int {
    pen(fonts, text.take(i), size) + (if i > 0 {
        kerning_between(fonts, text[i - 1], text[i], size)
    } else {
        0
    })
}

/// Vertical metrics of the chain's first font at `size`.
pub open spec fn spec_vmetrics(fonts: Seq<StyleFont>, size: int) -> VMetrics {
    let f = fonts[0];
    VMetrics {
        ascent: scale_units(f.face.ascent as int, size, f.height as int) as i64,
        descent: scale_units(f.face.descent as int, size, f.height as int) as i64,
        line_gap: scale_units(f.face.line_gap as int, size, f.height as int) as i64,
    }
}

/// Left side bearing of the first glyph of `text`, zero for empty text.
pub open spec fn spec_left_side_bearing(fonts: Seq<StyleFont>, text: Seq<char>, size: int) -> int {
    if text.len() == 0 {
        0
    } else {
        scale_units(
            picked_entry(fonts, text[0]).left_side_bearing as int,
            size,
            picked_divisor(fonts, text[0]),
        )
    }
}

/// Sum of the advance widths of the glyphs laid out for `text`.
pub open spec fn total_advance(fonts: Seq<StyleFont>, text: Seq<char>, size: int) -> int
    decreases text.len(),
{
    if text.len() == 0 {
        0
    } else {
        total_advance(fonts, text.drop_last(), size) + advance_of(fonts, text.last(), size)
    }
}

/// Sum of the kerning between neighbouring glyphs of `text` that share a font.
pub open spec fn total_kerning(fonts: Seq<StyleFont>, text: Seq<char>, size: int) -> int
    decreases text.len(),
{
    if text.len() <= 1 {
        0
    } else {
        total_kerning(fonts, text.drop_last(), size) + kerning_between(
            fonts,
            text.drop_last().last(),
            text.last(),
            size,
        )
    }
}

/// The width of laid-out text is the sum of its glyphs' advance widths plus the kerning
/// of each pair of neighbours drawn from the same font.
pub proof fn lemma_width_is_advances_plus_kerning(fonts: Seq<StyleFont>, text: Seq<char>, size: int)
    ensures
        pen(fonts, text, size) == total_advance(fonts, text, size) + total_kerning(fonts, text, size),
    decreases text.len(),
{
    if text.len() > 0 {
        lemma_width_is_advances_plus_kerning(fonts, text.drop_last(), size);
    }
}

/// When the first font of a chain covers every character of `text`, every glyph laid
/// out for it comes from that font.
pub proof fn lemma_covered_text_uses_primary_font(fonts: Seq<StyleFont>, text: Seq<char>, size: int)
    requires
        chain_wf(fonts),
        forall|i: int| 0 <= i < text.len() ==> (#[trigger] fonts[0].face.spec_glyph(text[i])).id != 0,
    ensures
        forall|i: int|
            0 <= i < text.len() ==> (#[trigger] spec_glyph_for(fonts, text[i], size)).font_id
                == fonts[0].font_id,
{
    assert forall|i: int| 0 <= i < text.len() implies (#[trigger] spec_glyph_for(
        fonts,
        text[i],
        size,
    )).font_id == fonts[0].font_id by {
        assert(fonts[0].face.spec_glyph(text[i]).id != 0);
        assert(covering_font(fonts, text[i], 0) == Some(0int));
    }
}

/// A fallback chain every font of which is well formed.
pub open spec fn chain_wf(fonts: Seq<StyleFont>) -> bool {
    &&& fonts.len() > 0
    &&& forall|i: int| 0 <= i < fonts.len() ==> (#[trigger] fonts[i]).wf()
}

/// The characters of `text`, in order.
pub fn chars_of(text: &str) -> (r: Vec<char>)
    ensures
        r@ == text@,
{
    let mut it = text.chars();
    let mut out: Vec<char> = Vec::new();
    loop
        invariant
            it.obeys_prophetic_iter_laws(),
            it.decrease() is Some,
            out@ + it.remaining() == text@,
        ensures
            out@ == text@,
        decreases it.decrease()->0,
    {
        match it.next() {
            Some(c) => {
                out.push(c);
            },
            None => {
                assert(out@ =~= text@);
                break;
            },
        }
    }
    out
}

/// `units * size / divisor`, rounded down.
pub fn scale(units: i64, size: u32, divisor: u32) -> (r: i64)
    requires
        -0x1_0000 <= units <= 0x1_0000,
        divisor > 0,
    ensures
        r == scale_units(units as int, size as int, divisor as int),
        -0x1_0000 * (size as int) <= r <= 0x1_0000 * (size as int),
{
    proof {
        assert(-0x1_0000 * (size as int) <= units * size <= 0x1_0000 * (size as int))
            by (nonlinear_arith)
            requires
                -0x1_0000 <= units <= 0x1_0000,
                size >= 0,
        ;
    }
    let p: i64 = units * (size as i64);
    let ghost d = divisor as int;
    if p >= 0 {
        let q = ((p as u64) / (divisor as u64)) as i64;
        proof {
            vstd::arithmetic::div_mod::lemma_fundamental_div_mod(p as int, d);
            assert(q <= p) by (nonlinear_arith)
                requires
                    p == d * q + (p as int) % d,
                    (p as int) % d >= 0,
                    d >= 1,
                    q >= 0,
            ;
        }
        q
    } else {
        let m: u64 = (-p - 1) as u64;
        let q = (m / (divisor as u64)) as i64;
        proof {
            vstd::arithmetic::div_mod::lemma_fundamental_div_mod(m as int, d);
            let rem = (m as int) % d;
            assert(p == (-q - 1) * d + (d - rem - 1)) by (nonlinear_arith)
                requires
                    m == d * q + rem,
                    m == -p - 1,
            ;
            vstd::arithmetic::div_mod::lemma_fundamental_div_mod_converse(
                p as int,
                d,
                -q - 1,
                d - rem - 1,
            );
            assert(q <= m) by (nonlinear_arith)
                requires
                    m == d * q + rem,
                    rem >= 0,
                    d >= 1,
                    q >= 0,
            ;
        }
        -q - 1
    }
}



/// The font of the chain that draws `c`, its glyph entry and its scale divisor.
pub(crate) fn pick_font(fonts: &Vec<StyleFont>, c: char) -> (r: (usize, GlyphEntry, u32))
    requires
        chain_wf(fonts@),
    ensures
        r.0 == picked_index(fonts@, c),
        r.0 < fonts@.len(),
        r.1 == picked_entry(fonts@, c),
        r.2 == picked_divisor(fonts@, c),
        r.2 > 0,
{
    let mut i: usize = 0;
    while i < fonts.len()
        invariant
            chain_wf(fonts@),
            i <= fonts@.len(),
            covering_font(fonts@, c, 0) == covering_font(fonts@, c, i as int),
        decreases fonts@.len() - i,
    {
        let entry = fonts[i].face.glyph(c);
        if entry.id != 0 {
            assert(fonts@[i as int].wf());
            return (i, entry, fonts[i].height);
        }
        i = i + 1;
    }
    let first = &fonts[0];
    assert(first.wf());
    let divisor = ((first.face.ascent as i32) - (first.face.descent as i32)) as u32;
    (0, first.face.glyph(c), divisor)
}

} // verus!
