use vstd::prelude::*;
use crate::atlas::{AtlasStep, GlyphAtlas, GlyphKey};
use crate::font::FontFace;
use crate::layout::{
    MAX_TEXT_CHARS,
    MAX_GLYPH_STEP,
    Glyph,
    VMetrics,
    LaidOutText,
    Alignment,
    StyleFont,
    picked_index,
    picked_entry,
    spec_glyph_for,
    pen,
    glyph_offset,
    spec_vmetrics,
    spec_left_side_bearing,
    chain_wf,
    chars_of,
    scale,
    pick_font,
};

verus! {

/// A glyph queued for drawing, in device units.
#[derive(Clone, Copy, Debug, PartialEq, Eq)]
pub struct QueuedGlyph {
    pub glyph: Glyph,
    pub x: i64,
    pub y: i64,
    pub color: [u8; 4],
}

/// Largest magnitude of a logical coordinate `draw_glyph` accepts, and of the screen height.
pub const DRAW_COORD_LIMIT: i64 = 0x80_0000_0000_0000;

/// Largest magnitude of the anchor coordinates `draw_text` accepts.
pub const TEXT_COORD_LIMIT: i64 = 0x4_0000_0000_0000;

/// Bound on the vertical advance of one line, in layout units.
pub const MAX_LINE_STEP: i64 = 0x4_0000_0000;

/// `v` logical units in device units at `dpi_milli` thousandths, rounded down.
pub open spec fn to_device(v: int, dpi_milli: int) -> int {
    (v * dpi_milli) / 1000
}

/// The queue entry for `glyph` drawn at logical `(x, y)`: position and size go to device
/// units, and `y` is flipped against the screen height.
pub open spec fn glyph_draw(
    dpi_milli: int,
    screen_height: int,
    x: int,
    y: int,
    color: [u8; 4],
    glyph: Glyph,
) -> QueuedGlyph {
    QueuedGlyph {
        glyph: Glyph { size: to_device(glyph.size as int, dpi_milli) as u32, ..glyph },
        x: to_device(x, dpi_milli) as i64,
        y: to_device(screen_height - y, dpi_milli) as i64,
        color,
    }
}

/// Left edge of a line of `width` anchored at `x`.
pub open spec fn aligned_x(x: int, width: int, alignment: Alignment) -> int {
    match alignment {
        Alignment::Left => x,
        Alignment::Center => x - width / 2,
        Alignment::Right => x - width,
    }
}

/// Vertical distance between consecutive lines of a style at `size`.
pub open spec fn line_advance(fonts: Seq<StyleFont>, size: int) -> int {
    let v = spec_vmetrics(fonts, size);
    v.ascent - v.descent + v.line_gap
}

/// Queue entries for one line drawn with its baseline at `y`.
pub open spec fn line_draws(
    fonts: Seq<StyleFont>,
    line: Seq<char>,
    x: int,
    y: int,
    alignment: Alignment,
    color: [u8; 4],
    size: int,
    dpi_milli: int,
    screen_height: int,
) -> Seq<QueuedGlyph> {
    let left = aligned_x(x, pen(fonts, line, size), alignment);
    Seq::new(
        line.len(),
        |j: int|
            glyph_draw(
                dpi_milli,
                screen_height,
                left + glyph_offset(fonts, line, j, size),
                y,
                color,
                spec_glyph_for(fonts, line[j], size),
            ),
    )
}

/// Queue entries for a sequence of lines, the first at `y` and each next one a line
/// advance lower.
pub open spec fn text_draws(
    fonts: Seq<StyleFont>,
    lines: Seq<Seq<char>>,
    x: int,
    y: int,
    alignment: Alignment,
    color: [u8; 4],
    size: int,
    dpi_milli: int,
    screen_height: int,
) -> Seq<QueuedGlyph>
    decreases lines.len(),
{
    if lines.len() == 0 {
        Seq::empty()
    } else {
        line_draws(fonts, lines[0], x, y, alignment, color, size, dpi_milli, screen_height)
            + text_draws(
            fonts,
            lines.drop_first(),
            x,
            y - line_advance(fonts, size),
            alignment,
            color,
            size,
            dpi_milli,
            screen_height,
        )
    }
}

/// A line ended by `\n`, without the one carriage return before the `\n`, if it has one.
pub open spec fn strip_cr(line: Seq<char>) -> Seq<char> {
    if line.len() > 0 && line.last() == '\r' {
        line.drop_last()
    } else {
        line
    }
}

/// The lines of `t` from position `i` on, the current one having started at `start`:
/// split at each `\n` (a `\r` before it dropped), without a final empty line after a
/// trailing `\n`.
pub open spec fn lines_from(t: Seq<char>, i: int, start: int) -> Seq<Seq<char>>
    decreases t.len() - i,
{
    if i < 0 || i >= t.len() {
        if 0 <= start < t.len() {
            seq![t.subrange(start, t.len() as int)]
        } else {
            Seq::empty()
        }
    } else if t[i] == '\n' {
        seq![strip_cr(t.subrange(start, i))] + lines_from(t, i + 1, i + 1)
    } else {
        lines_from(t, i + 1, start)
    }
}

/// The lines of `t`.
pub open spec fn lines_of(t: Seq<char>) -> Seq<Seq<char>> {
    lines_from(t, 0, 0)
}

/// `p / d`, rounded down.
pub fn floor_div(p: i128, d: u64) -> (r: i128)
    requires
        d > 0,
        -0x1_0000_0000_0000_0000_0000 <= p <= 0x1_0000_0000_0000_0000_0000,
    ensures
        r == (p as int) / (d as int),
{
    let ghost di = d as int;
    if p >= 0 {
        let q = ((p as u128) / (d as u128)) as i128;
        proof {
            vstd::arithmetic::div_mod::lemma_fundamental_div_mod(p as int, di);
        }
        q
    } else {
        let m: u128 = (-p - 1) as u128;
        let q = (m / (d as u128)) as i128;
        proof {
            vstd::arithmetic::div_mod::lemma_fundamental_div_mod(m as int, di);
            let rem = (m as int) % di;
            assert(p == (-q - 1) * di + (di - rem - 1)) by (nonlinear_arith)
                requires
                    m == di * q + rem,
                    m == -p - 1,
            ;
            vstd::arithmetic::div_mod::lemma_fundamental_div_mod_converse(
                p as int,
                di,
                -q - 1,
                di - rem - 1,
            );
        }
        -q - 1
    }
}

/// `v` logical units in device units, rounded down.
fn device(v: i64, dpi_milli: u16) -> (r: i64)
    requires
        -2 * DRAW_COORD_LIMIT <= v <= 2 * DRAW_COORD_LIMIT,
    ensures
        r == to_device(v as int, dpi_milli as int),
{
    proof {
        assert(-2 * DRAW_COORD_LIMIT * 0x1_0000 <= v * dpi_milli <= 2 * DRAW_COORD_LIMIT * 0x1_0000)
            by (nonlinear_arith)
            requires
                -2 * DRAW_COORD_LIMIT <= v <= 2 * DRAW_COORD_LIMIT,
                0 <= dpi_milli <= 0xffff,
        ;
    }
    let r = floor_div((v as i128) * (dpi_milli as i128), 1000);
    proof {
        vstd::arithmetic::div_mod::lemma_fundamental_div_mod(v * dpi_milli, 1000);
    }
    r as i64
}

/// The atlas key of a queued glyph.
pub open spec fn key_of(g: QueuedGlyph) -> GlyphKey {
    GlyphKey { font_id: g.glyph.font_id, id: g.glyph.id, size: g.glyph.size }
}

/// The staging list `q` after staging the key of each glyph of `glyphs`, in order.
pub open spec fn staged_all(q: Seq<GlyphKey>, glyphs: Seq<QueuedGlyph>) -> Seq<GlyphKey>
    decreases glyphs.len(),
{
    if glyphs.len() == 0 {
        q
    } else {
        crate::atlas::staged(staged_all(q, glyphs.drop_last()), key_of(glyphs.last()))
    }
}

/// The glyphs of `glyphs` whose key is in `resident`, in order.
pub open spec fn resident_only(glyphs: Seq<QueuedGlyph>, resident: Seq<GlyphKey>) -> Seq<
    QueuedGlyph,
>
    decreases glyphs.len(),
{
    if glyphs.len() == 0 {
        glyphs
    } else if resident.contains(key_of(glyphs.last())) {
        resident_only(glyphs.drop_last(), resident).push(glyphs.last())
    } else {
        resident_only(glyphs.drop_last(), resident)
    }
}

} // verus!

verus! {

/// Lays out text in registered font styles and queues it for drawing.
pub struct TextRenderer {
    styles: Vec<Vec<StyleFont>>,
    next_id: usize,
    queue: Vec<QueuedGlyph>,
    atlas: GlyphAtlas,
    dpi_milli: u16,
    screen_size: (i64, i64),
}

impl TextRenderer {
    pub closed spec fn style_count(&self) -> nat {
        self.styles@.len()
    }

    /// The fallback chain of style `k`.
    pub closed spec fn style(&self, k: int) -> Seq<StyleFont> {
        self.styles@[k]@
    }

    /// Id the next registered font receives.
    pub closed spec fn spec_next_id(&self) -> usize {
        self.next_id
    }

    /// Glyphs queued for the next render, in drawing order.
    pub closed spec fn spec_queue(&self) -> Seq<QueuedGlyph> {
        self.queue@
    }

    pub closed spec fn spec_atlas(&self) -> GlyphAtlas {
        self.atlas
    }

    /// Device pixels per logical pixel, in thousandths.
    pub closed spec fn spec_dpi_milli(&self) -> u16 {
        self.dpi_milli
    }

    /// Logical width and height of the screen, in layout units.
    pub closed spec fn spec_screen_size(&self) -> (i64, i64) {
        self.screen_size
    }

    pub open spec fn wf(&self) -> bool {
        &&& forall|k: int| 0 <= k < self.style_count() ==> chain_wf(#[trigger] self.style(k))
        &&& self.spec_atlas().wf()
    }

    /// The fonts, ids, atlas and screen setup of `self` and `other` agree.
    pub open spec fn same_setup(&self, other: &TextRenderer) -> bool {
        &&& self.style_count() == other.style_count()
        &&& forall|k: int| 0 <= k < self.style_count() ==> #[trigger] self.style(k) == other.style(k)
        &&& self.spec_next_id() == other.spec_next_id()
        &&& self.spec_atlas() == other.spec_atlas()
        &&& self.spec_dpi_milli() == other.spec_dpi_milli()
        &&& self.spec_screen_size() == other.spec_screen_size()
    }

    /// A renderer with no styles.
    pub fn new() -> (r: TextRenderer)
        ensures
            r.wf(),
            r.style_count() == 0,
            r.spec_next_id() == 0,
            r.spec_queue() == Seq::<QueuedGlyph>::empty(),
            r.spec_atlas().spec_tex_size() == crate::atlas::INITIAL_ATLAS_SIZE,
            r.spec_atlas().spec_queued() == Seq::<GlyphKey>::empty(),
            r.spec_atlas().spec_resident() == Seq::<GlyphKey>::empty(),
            r.spec_dpi_milli() == 1000,
            r.spec_screen_size() == (0i64, 0i64),
    {
        TextRenderer {
            styles: Vec::new(),
            next_id: 0,
            queue: Vec::new(),
            atlas: GlyphAtlas::new(),
            dpi_milli: 1000,
            screen_size: (0, 0),
        }
    }

    pub fn dpi_milli(&self) -> (r: u16)
        ensures
            r == self.spec_dpi_milli(),
    {
        self.dpi_milli
    }

    pub fn screen_size(&self) -> (r: (i64, i64))
        ensures
            r == self.spec_screen_size(),
    {
        self.screen_size
    }

    /// Sets the device scale, in thousandths of a device pixel per logical pixel.
    pub fn set_dpi_milli(&mut self, dpi_milli: u16)
        requires
            old(self).wf(),
        ensures
            final(self).wf(),
            final(self).spec_dpi_milli() == dpi_milli,
            final(self).spec_screen_size() == old(self).spec_screen_size(),
            final(self).spec_queue() == old(self).spec_queue(),
            final(self).style_count() == old(self).style_count(),
            forall|k: int| 0 <= k < old(self).style_count() ==> #[trigger] final(self).style(k) == old(self).style(k),
            final(self).spec_next_id() == old(self).spec_next_id(),
            final(self).spec_atlas() == old(self).spec_atlas(),
    {
        self.dpi_milli = dpi_milli;
        assert forall|k: int| 0 <= k < self.style_count() implies chain_wf(#[trigger] self.style(k)) by {
            assert(self.style(k) == old(self).style(k));
            assert(chain_wf(old(self).style(k)));
        }
    }

    /// Sets the logical screen size.
    pub fn set_screen_size(&mut self, screen_size: (i64, i64))
        requires
            old(self).wf(),
        ensures
            final(self).wf(),
            final(self).spec_screen_size() == screen_size,
            final(self).spec_dpi_milli() == old(self).spec_dpi_milli(),
            final(self).spec_queue() == old(self).spec_queue(),
            final(self).style_count() == old(self).style_count(),
            forall|k: int| 0 <= k < old(self).style_count() ==> #[trigger] final(self).style(k) == old(self).style(k),
            final(self).spec_next_id() == old(self).spec_next_id(),
            final(self).spec_atlas() == old(self).spec_atlas(),
    {
        self.screen_size = screen_size;
        assert forall|k: int| 0 <= k < self.style_count() implies chain_wf(#[trigger] self.style(k)) by {
            assert(self.style(k) == old(self).style(k));
            assert(chain_wf(old(self).style(k)));
        }
    }

    /// Appends `face` to the fallback chain of `style`, with the next font id and its
    /// normalised height `cap_height - descent`.
    pub fn add_fallback_font(&mut self, style: usize, face: FontFace)
        requires
            old(self).wf(),
            style < old(self).style_count(),
            face.wf(),
            old(self).spec_next_id() < usize::MAX,
        ensures
            final(self).wf(),
            final(self).style_count() == old(self).style_count(),
            final(self).spec_next_id() == old(self).spec_next_id() + 1,
            final(self).spec_queue() == old(self).spec_queue(),
            final(self).spec_atlas() == old(self).spec_atlas(),
            final(self).spec_dpi_milli() == old(self).spec_dpi_milli(),
            final(self).spec_screen_size() == old(self).spec_screen_size(),
            final(self).style(style as int) == old(self).style(style as int).push(
                StyleFont {
                    font_id: old(self).spec_next_id(),
                    face,
                    height: face.spec_normalised_height() as u32,
                },
            ),
            forall|k: int|
                0 <= k < final(self).style_count() && k != style ==> final(self).style(k) == old(
                    self,
                ).style(k),
    {
        let height = ((face.cap_height as i32) - (face.descent as i32)) as u32;
        let entry = StyleFont { font_id: self.next_id, face, height };
        assert(entry.wf());
        self.styles[style].push(entry);
        self.next_id = self.next_id + 1;
        assert forall|k: int| 0 <= k < self.style_count() implies chain_wf(
            #[trigger] self.style(k),
        ) by {
            if k == style {
                let c = self.style(k);
                assert(c == old(self).style(k).push(entry));
                assert(chain_wf(old(self).style(k)));
                assert forall|j: int| 0 <= j < c.len() implies (#[trigger] c[j]).wf() by {
                    if j < c.len() - 1 {
                        assert(c[j] == old(self).style(k)[j]);
                    }
                }
            } else {
                assert(self.style(k) == old(self).style(k));
                assert(chain_wf(old(self).style(k)));
            }
        }
    }

    /// Lays out one line of text in `style` at `size`: each character gets the glyph of
    /// the first font of the chain that covers it, at that font's normalised scale, and
    /// the pen advances by its advance width plus the kerning with the previous glyph when
    /// both come from the same font. Vertical metrics are the first font's.
    pub fn layout(&self, text: &str, size: u16, style: usize) -> (r: LaidOutText)
        requires
            self.wf(),
            style < self.style_count(),
            text@.len() <= MAX_TEXT_CHARS,
        ensures
            r.glyphs@.len() == text@.len(),
            forall|i: int|
                0 <= i < text@.len() ==> #[trigger] r.glyphs@[i].0 == glyph_offset(self.style(style as int), text@, i, size as int) && r.glyphs@[i].1 == spec_glyph_for(self.style(style as int), text@[i], size as int),
            r.width == pen(self.style(style as int), text@, size as int),
            r.left_side_bearing == spec_left_side_bearing(
                self.style(style as int),
                text@,
                size as int,
            ),
            r.vertical == spec_vmetrics(self.style(style as int), size as int),
    {
        let chars = chars_of(text);
        let r = self.layout_chars(&chars, size, style);
        assert forall|i: int| 0 <= i < text@.len() implies #[trigger] r.glyphs@[i].0 == glyph_offset(self.style(style as int), text@, i, size as int) && r.glyphs@[i].1 == spec_glyph_for(self.style(style as int), text@[i], size as int) by {
            assert(r.glyphs@[i].0 == glyph_offset(self.style(style as int), chars@, i, size as int));
        }
        r
    }

    /// `layout` over a sequence of characters.
    fn layout_chars(&self, text: &Vec<char>, size: u16, style: usize) -> (r: LaidOutText)
        requires
            self.wf(),
            style < self.style_count(),
            text@.len() <= MAX_TEXT_CHARS,
        ensures
            -(text@.len() as int) * MAX_GLYPH_STEP <= r.width <= (text@.len() as int) * MAX_GLYPH_STEP,
            forall|i: int|
                0 <= i < text@.len() ==> -(i + 1) * MAX_GLYPH_STEP <= #[trigger] r.glyphs@[i].0 <= (i + 1) * MAX_GLYPH_STEP && r.glyphs@[i].1.size == size,
            -0x1_0000_0000 <= r.vertical.ascent <= 0x1_0000_0000,
            -0x1_0000_0000 <= r.vertical.descent <= 0x1_0000_0000,
            -0x1_0000_0000 <= r.vertical.line_gap <= 0x1_0000_0000,
            r.glyphs@.len() == text@.len(),
            forall|i: int|
                0 <= i < text@.len() ==> #[trigger] r.glyphs@[i].0 == glyph_offset(self.style(style as int), text@, i, size as int) && r.glyphs@[i].1 == spec_glyph_for(self.style(style as int), text@[i], size as int),
            r.width == pen(self.style(style as int), text@, size as int),
            r.left_side_bearing == spec_left_side_bearing(
                self.style(style as int),
                text@,
                size as int,
            ),
            r.vertical == spec_vmetrics(self.style(style as int), size as int),
    {
        let chars = text;
        let fonts = &self.styles[style];
        let ghost fs = fonts@;
        assert(fs == self.style(style as int));
        assert(chain_wf(fs));
        let mut position: i64 = 0;
        let mut prev: Option<(usize, u16)> = None;
        let mut left_side_bearing: Option<i64> = None;
        let mut glyphs: Vec<(i64, Glyph)> = Vec::new();
        let mut i: usize = 0;
        while i < chars.len()
            invariant
                fs == self.style(style as int),
                fs == fonts@,
                chain_wf(fs),
                chars@ == text@,
                chars@.len() <= MAX_TEXT_CHARS,
                i <= chars@.len(),
                position == pen(fs, chars@.take(i as int), size as int),
                -(i as int) * MAX_GLYPH_STEP <= position <= (i as int) * MAX_GLYPH_STEP,
                glyphs@.len() == i,
                forall|j: int|
                    0 <= j < i ==> #[trigger] glyphs@[j].0 == glyph_offset(fs, chars@, j, size as int)
                        && glyphs@[j].1 == spec_glyph_for(fs, chars@[j], size as int)
                        && -(j + 1) * MAX_GLYPH_STEP <= glyphs@[j].0 <= (j + 1) * MAX_GLYPH_STEP
                        && glyphs@[j].1.size == size,
                i == 0 ==> prev is None && left_side_bearing is None,
                i > 0 ==> prev == Some(
                    (
                        fs[picked_index(fs, chars@[i - 1])].font_id,
                        picked_entry(fs, chars@[i - 1]).id,
                    ),
                ),
                i > 0 ==> left_side_bearing is Some && left_side_bearing->0 == spec_left_side_bearing(
                    fs,
                    chars@,
                    size as int,
                ),
            decreases chars@.len() - i,
        {
            let c = chars[i];
            let (index, entry, divisor) = pick_font(fonts, c);
            let font_id = fonts[index].font_id;
            let glyph = Glyph { font_id, id: entry.id, size: size as u32, unit_divisor: divisor };
            let advance = scale(entry.advance as i64, size as u32, divisor);
            if left_side_bearing.is_none() {
                left_side_bearing = Some(scale(entry.left_side_bearing as i64, size as u32, divisor));
            }
            let kern: i64 = match prev {
                Some((prev_font, prev_id)) => {
                    if prev_font == font_id {
                        scale(fonts[index].face.kerning(prev_id, entry.id) as i64, size as u32, divisor)
                    } else {
                        0
                    }
                },
                None => 0,
            };
            proof {
                let t = chars@.take(i + 1);
                assert(t.drop_last() =~= chars@.take(i as int));
                assert(t.last() == c);
                if i > 0 {
                    assert(t.drop_last().last() == chars@[i - 1]);
                }
                assert((size as int) * 0x1_0000 <= 0x1_0000_0000) by (nonlinear_arith)
                    requires
                        size <= 0xffff,
                ;
            }
            let offset = position + kern;
            glyphs.push((offset, glyph));
            position = offset + advance;
            prev = Some((font_id, entry.id));
            i = i + 1;
            assert(glyphs@[i - 1].0 == glyph_offset(fs, chars@, i - 1, size as int));
        }
        assert(chars@.take(chars@.len() as int) =~= chars@);
        assert forall|j: int| 0 <= j < chars@.len() implies #[trigger] glyphs@[j].0 == glyph_offset(self.style(style as int), text@, j, size as int) && glyphs@[j].1 == spec_glyph_for(self.style(style as int), text@[j], size as int) by {
            assert(glyphs@[j].0 == glyph_offset(fs, chars@, j, size as int));
        }
        let first = &fonts[0];
        assert(first.wf());
        proof {
            assert((size as int) * 0x1_0000 <= 0x1_0000_0000) by (nonlinear_arith)
                requires
                    size <= 0xffff,
            ;
        }
        let vertical = VMetrics {
            ascent: scale(first.face.ascent as i64, size as u32, first.height),
            descent: scale(first.face.descent as i64, size as u32, first.height),
            line_gap: scale(first.face.line_gap as i64, size as u32, first.height),
        };
        LaidOutText {
            width: position,
            left_side_bearing: match left_side_bearing {
                Some(l) => l,
                None => 0,
            },
            vertical,
            glyphs,
        }
    }

    proof fn lemma_wf_kept(a: &TextRenderer, b: &TextRenderer)
        requires
            a.wf(),
            b.styles@ == a.styles@,
            b.atlas == a.atlas,
        ensures
            b.wf(),
            b.style_count() == a.style_count(),
            forall|k: int| 0 <= k < a.style_count() ==> #[trigger] b.style(k) == a.style(k),
    {
        assert forall|k: int| 0 <= k < b.style_count() implies chain_wf(#[trigger] b.style(k)) by {
            assert(b.style(k) == a.style(k));
            assert(chain_wf(a.style(k)));
        }
    }

    /// Queues `glyph` at logical `(x, y)`, `y` measured up from the bottom of the screen:
    /// position and glyph size are converted to device units here.
    pub fn draw_glyph(&mut self, x: i64, y: i64, color: [u8; 4], glyph: Glyph)
        requires
            old(self).wf(),
            -DRAW_COORD_LIMIT <= x <= DRAW_COORD_LIMIT,
            -DRAW_COORD_LIMIT <= y <= DRAW_COORD_LIMIT,
            -DRAW_COORD_LIMIT <= old(self).spec_screen_size().1 <= DRAW_COORD_LIMIT,
            glyph.size <= 0xffff,
        ensures
            final(self).wf(),
            final(self).same_setup(old(self)),
            final(self).spec_queue() == old(self).spec_queue().push(
                glyph_draw(
                    old(self).spec_dpi_milli() as int,
                    old(self).spec_screen_size().1 as int,
                    x as int,
                    y as int,
                    color,
                    glyph,
                ),
            ),
    {
        let dx = device(x, self.dpi_milli);
        let dy = device(self.screen_size.1 - y, self.dpi_milli);
        let size = device(glyph.size as i64, self.dpi_milli);
        proof {
            assert((glyph.size as int) * (self.dpi_milli as int) <= 0xffff * 0xffff)
                by (nonlinear_arith)
                requires
                    glyph.size <= 0xffff,
                    self.dpi_milli <= 0xffff,
            ;
            assert((glyph.size as int) * (self.dpi_milli as int) >= 0) by (nonlinear_arith)
                requires
                    glyph.size >= 0,
                    self.dpi_milli >= 0,
            ;
        }
        let scaled = Glyph {
            font_id: glyph.font_id,
            id: glyph.id,
            size: size as u32,
            unit_divisor: glyph.unit_divisor,
        };
        self.queue.push(QueuedGlyph { glyph: scaled, x: dx, y: dy, color });
        proof {
            Self::lemma_wf_kept(old(self), self);
        }
    }

    /// Draws the line `chars[start..end]` with its baseline at `y`, dropping a trailing
    /// carriage return when a `\n` ended the line; returns the distance to the next
    /// line's baseline.
    fn draw_line(
        &mut self,
        chars: &Vec<char>,
        start: usize,
        end: usize,
        x: i64,
        y: i64,
        alignment: Alignment,
        color: [u8; 4],
        size: u16,
        style: usize,
        newline: bool,
    ) -> (advance: i64)
        requires
            old(self).wf(),
            style < old(self).style_count(),
            start <= end <= chars@.len(),
            chars@.len() <= MAX_TEXT_CHARS,
            -TEXT_COORD_LIMIT <= x <= TEXT_COORD_LIMIT,
            -DRAW_COORD_LIMIT <= y <= DRAW_COORD_LIMIT,
            -DRAW_COORD_LIMIT <= old(self).spec_screen_size().1 <= DRAW_COORD_LIMIT,
        ensures
            final(self).wf(),
            final(self).same_setup(old(self)),
            final(self).spec_queue() == old(self).spec_queue() + line_draws(
                old(self).style(style as int),
                if newline {
                    strip_cr(chars@.subrange(start as int, end as int))
                } else {
                    chars@.subrange(start as int, end as int)
                },
                x as int,
                y as int,
                alignment,
                color,
                size as int,
                old(self).spec_dpi_milli() as int,
                old(self).spec_screen_size().1 as int,
            ),
            advance == line_advance(old(self).style(style as int), size as int),
            -MAX_LINE_STEP <= advance <= MAX_LINE_STEP,
    {
        let mut line: Vec<char> = Vec::new();
        let mut k: usize = start;
        while k < end
            invariant
                start <= k <= end,
                end <= chars@.len(),
                line@ == chars@.subrange(start as int, k as int),
            decreases end - k,
        {
            line.push(chars[k]);
            k = k + 1;
            assert(line@ =~= chars@.subrange(start as int, k as int));
        }
        if newline && line.len() > 0 && line[line.len() - 1] == '\r' {
            line.pop();
        }
        let ghost text = line@;
        let laid = self.layout_chars(&line, size, style);
        let ghost fs = self.style(style as int);
        let width = laid.width;
        let left: i64 = match alignment {
            Alignment::Left => x,
            Alignment::Center => x - (floor_div(width as i128, 2) as i64),
            Alignment::Right => x - width,
        };
        assert(left == aligned_x(x as int, pen(fs, text, size as int), alignment));
        let ghost q0 = self.queue@;
        let ghost dpi = self.dpi_milli as int;
        let ghost sh = self.screen_size.1 as int;
        let ghost all = line_draws(fs, text, x as int, y as int, alignment, color, size as int, dpi, sh);
        let mut j: usize = 0;
        while j < laid.glyphs.len()
            invariant
                self.wf(),
                self.same_setup(old(self)),
                fs == self.style(style as int),
                fs == old(self).style(style as int),
                style < old(self).style_count(),
                laid.glyphs@.len() == text.len(),
                text.len() <= MAX_TEXT_CHARS,
                forall|i: int|
                    0 <= i < text.len() ==> #[trigger] laid.glyphs@[i].0 == glyph_offset(fs, text, i, size as int)
                        && laid.glyphs@[i].1 == spec_glyph_for(fs, text[i], size as int),
                forall|i: int|
                    0 <= i < text.len() ==> -(i + 1) * MAX_GLYPH_STEP <= #[trigger] laid.glyphs@[i].0 <= (i + 1) * MAX_GLYPH_STEP && laid.glyphs@[i].1.size == size,
                -TEXT_COORD_LIMIT - MAX_TEXT_CHARS * MAX_GLYPH_STEP <= left <= TEXT_COORD_LIMIT
                    + MAX_TEXT_CHARS * MAX_GLYPH_STEP,
                left == aligned_x(x as int, pen(fs, text, size as int), alignment),
                -DRAW_COORD_LIMIT <= y <= DRAW_COORD_LIMIT,
                dpi == self.spec_dpi_milli(),
                sh == self.spec_screen_size().1,
                -DRAW_COORD_LIMIT <= sh <= DRAW_COORD_LIMIT,
                all == line_draws(fs, text, x as int, y as int, alignment, color, size as int, dpi, sh),
                j <= text.len(),
                self.queue@ == q0 + all.take(j as int),
            decreases text.len() - j,
        {
            let (offset, glyph) = laid.glyphs[j];
            assert(laid.glyphs@[j as int].0 == offset);
            assert(-(j + 1) * MAX_GLYPH_STEP <= offset <= (j + 1) * MAX_GLYPH_STEP);
            assert((j + 1) * MAX_GLYPH_STEP <= MAX_TEXT_CHARS * MAX_GLYPH_STEP) by (nonlinear_arith)
                requires
                    j + 1 <= MAX_TEXT_CHARS,
            ;
            let ghost prev = *self;
            self.draw_glyph(left + offset, y, color, glyph);
            assert forall|k: int| 0 <= k < old(self).style_count() implies #[trigger] self.style(k)
                == old(self).style(k) by {
                assert(prev.style(k) == old(self).style(k));
                assert(self.style(k) == prev.style(k));
            }
            j = j + 1;
            assert(all.take(j as int) =~= all.take(j - 1).push(all[j - 1]));
        }
        assert(all.take(text.len() as int) =~= all);
        laid.vertical.ascent - laid.vertical.descent + laid.vertical.line_gap
    }

    /// Queues `text` line by line: lines split at `\n` (a trailing `\r` dropped), the first
    /// with its baseline at `y` and each next one a line advance of the style's first font
    /// lower; each line is anchored at `x` by `alignment` using its own measured width.
    pub fn draw_text(
        &mut self,
        text: &str,
        x: i64,
        y: i64,
        alignment: Alignment,
        color: [u8; 4],
        size: u16,
        style: usize,
    )
        requires
            old(self).wf(),
            style < old(self).style_count(),
            text@.len() <= MAX_TEXT_CHARS,
            -TEXT_COORD_LIMIT <= x <= TEXT_COORD_LIMIT,
            -TEXT_COORD_LIMIT <= y <= TEXT_COORD_LIMIT,
            -DRAW_COORD_LIMIT <= old(self).spec_screen_size().1 <= DRAW_COORD_LIMIT,
        ensures
            final(self).wf(),
            final(self).same_setup(old(self)),
            final(self).spec_queue() == old(self).spec_queue() + text_draws(
                old(self).style(style as int),
                lines_of(text@),
                x as int,
                y as int,
                alignment,
                color,
                size as int,
                old(self).spec_dpi_milli() as int,
                old(self).spec_screen_size().1 as int,
            ),
    {
        let chars = chars_of(text);
        let n = chars.len();
        let ghost fs = old(self).style(style as int);
        let ghost dpi = old(self).spec_dpi_milli() as int;
        let ghost sh = old(self).spec_screen_size().1 as int;
        let ghost total = text_draws(
            fs,
            lines_of(chars@),
            x as int,
            y as int,
            alignment,
            color,
            size as int,
            dpi,
            sh,
        );
        let mut start: usize = 0;
        let mut i: usize = 0;
        let mut line_y: i64 = y;
        while i < n
            invariant
                self.wf(),
                self.same_setup(old(self)),
                style < old(self).style_count(),
                fs == old(self).style(style as int),
                dpi == old(self).spec_dpi_milli(),
                sh == old(self).spec_screen_size().1,
                -DRAW_COORD_LIMIT <= sh <= DRAW_COORD_LIMIT,
                -TEXT_COORD_LIMIT <= x <= TEXT_COORD_LIMIT,
                chars@ == text@,
                n == chars@.len(),
                n <= MAX_TEXT_CHARS,
                start <= i <= n,
                -TEXT_COORD_LIMIT - start * MAX_LINE_STEP <= line_y <= TEXT_COORD_LIMIT + start
                    * MAX_LINE_STEP,
                old(self).spec_queue() + total == self.spec_queue() + text_draws(
                    fs,
                    lines_from(chars@, i as int, start as int),
                    x as int,
                    line_y as int,
                    alignment,
                    color,
                    size as int,
                    dpi,
                    sh,
                ),
            decreases n - i,
        {
            if chars[i] == '\n' {
                let ghost line = strip_cr(chars@.subrange(start as int, i as int));
                let ghost rest = lines_from(chars@, i + 1, i + 1);
                let ghost q = self.spec_queue();
                assert(lines_from(chars@, i as int, start as int) == seq![line] + rest);
                assert((seq![line] + rest)[0] == line);
                assert((seq![line] + rest).drop_first() =~= rest);
                proof {
                    assert(start * MAX_LINE_STEP <= MAX_TEXT_CHARS * MAX_LINE_STEP) by (nonlinear_arith)
                        requires
                            start <= MAX_TEXT_CHARS,
                    ;
                }
                let ghost prev = *self;
                let advance = self.draw_line(&chars, start, i, x, line_y, alignment, color, size, style, true);
                assert forall|k: int| 0 <= k < old(self).style_count() implies #[trigger] self.style(k)
                    == old(self).style(k) by {
                    assert(prev.style(k) == old(self).style(k));
                    assert(self.style(k) == prev.style(k));
                }
                let ghost d1 = line_draws(
                    fs,
                    line,
                    x as int,
                    line_y as int,
                    alignment,
                    color,
                    size as int,
                    dpi,
                    sh,
                );
                let ghost d2 = text_draws(
                    fs,
                    rest,
                    x as int,
                    line_y - advance,
                    alignment,
                    color,
                    size as int,
                    dpi,
                    sh,
                );
                assert(q + (d1 + d2) =~= (q + d1) + d2);
                line_y = line_y - advance;
                start = i + 1;
            } else {
                assert(lines_from(chars@, i as int, start as int) == lines_from(
                    chars@,
                    i + 1,
                    start as int,
                ));
            }
            i = i + 1;
        }
        proof {
            assert(start * MAX_LINE_STEP <= MAX_TEXT_CHARS * MAX_LINE_STEP) by (nonlinear_arith)
                requires
                    start <= MAX_TEXT_CHARS,
            ;
        }
        if start < n {
            let ghost line = chars@.subrange(start as int, n as int);
            assert(lines_from(chars@, n as int, start as int) == seq![line]);
            assert(seq![line].drop_first() =~= Seq::<Seq<char>>::empty());
            let ghost q = self.spec_queue();
            let ghost prev = *self;
            let _ = self.draw_line(&chars, start, n, x, line_y, alignment, color, size, style, false);
            assert forall|k: int| 0 <= k < old(self).style_count() implies #[trigger] self.style(k)
                == old(self).style(k) by {
                assert(prev.style(k) == old(self).style(k));
                assert(self.style(k) == prev.style(k));
            }
            let ghost d1 = line_draws(
                fs,
                line,
                x as int,
                line_y as int,
                alignment,
                color,
                size as int,
                dpi,
                sh,
            );
            let ghost rest_draws = text_draws(
                fs,
                seq![line].drop_first(),
                x as int,
                line_y - line_advance(fs, size as int),
                alignment,
                color,
                size as int,
                dpi,
                sh,
            );
            assert(rest_draws == Seq::<QueuedGlyph>::empty());
            assert(text_draws(
                fs,
                seq![line],
                x as int,
                line_y as int,
                alignment,
                color,
                size as int,
                dpi,
                sh,
            ) == d1 + rest_draws);
            assert(d1 + Seq::<QueuedGlyph>::empty() =~= d1);
            assert(old(self).spec_queue() + total == q + d1);
        } else {
            assert(lines_from(chars@, n as int, start as int) =~= Seq::<Seq<char>>::empty());
            assert(self.spec_queue() + Seq::<QueuedGlyph>::empty() =~= self.spec_queue());
        }
    }

    /// The glyphs queued since the last render, in drawing order.
    pub fn pending(&self) -> (r: &Vec<QueuedGlyph>)
        ensures
            r@ == self.spec_queue(),
    {
        &self.queue
    }

    /// Side of the atlas texture.
    pub fn atlas_size(&self) -> (r: u32)
        ensures
            r == self.spec_atlas().spec_tex_size(),
    {
        self.atlas.tex_size()
    }

    /// Stages every queued glyph in the atlas for the next packing pass.
    pub fn stage_pending(&mut self)
        requires
            old(self).wf(),
        ensures
            final(self).wf(),
            final(self).spec_queue() == old(self).spec_queue(),
            final(self).spec_atlas().spec_queued() == staged_all(
                old(self).spec_atlas().spec_queued(),
                old(self).spec_queue(),
            ),
            final(self).spec_atlas().spec_resident() == old(self).spec_atlas().spec_resident(),
            final(self).spec_atlas().spec_tex_size() == old(self).spec_atlas().spec_tex_size(),
            final(self).style_count() == old(self).style_count(),
            forall|k: int| 0 <= k < old(self).style_count() ==> #[trigger] final(self).style(k) == old(self).style(k),
            final(self).spec_next_id() == old(self).spec_next_id(),
            final(self).spec_dpi_milli() == old(self).spec_dpi_milli(),
            final(self).spec_screen_size() == old(self).spec_screen_size(),
    {
        let mut i: usize = 0;
        while i < self.queue.len()
            invariant
                self.styles@ == old(self).styles@,
                self.queue@ == old(self).queue@,
                self.next_id == old(self).next_id,
                self.dpi_milli == old(self).dpi_milli,
                self.screen_size == old(self).screen_size,
                self.atlas.wf(),
                i <= self.queue@.len(),
                self.atlas.spec_queued() == staged_all(
                    old(self).atlas.spec_queued(),
                    self.queue@.take(i as int),
                ),
                self.atlas.spec_resident() == old(self).atlas.spec_resident(),
                self.atlas.spec_tex_size() == old(self).atlas.spec_tex_size(),
            decreases self.queue@.len() - i,
        {
            let g = self.queue[i];
            let key = GlyphKey { font_id: g.glyph.font_id, id: g.glyph.id, size: g.glyph.size };
            self.atlas.queue(key);
            assert(self.queue@.take(i + 1).drop_last() =~= self.queue@.take(i as int));
            i = i + 1;
        }
        assert(self.queue@.take(self.queue@.len() as int) =~= self.queue@);
        assert forall|k: int| 0 <= k < self.style_count() implies chain_wf(#[trigger] self.style(k)) by {
            assert(self.style(k) == old(self).style(k));
            assert(chain_wf(old(self).style(k)));
        }
    }

    /// Records that the packing pass fitted every staged glyph.
    pub fn atlas_packed(&mut self)
        requires
            old(self).wf(),
        ensures
            final(self).wf(),
            crate::atlas::packed_from(old(self).spec_atlas(), final(self).spec_atlas()),
            final(self).spec_queue() == old(self).spec_queue(),
            final(self).style_count() == old(self).style_count(),
            forall|k: int| 0 <= k < old(self).style_count() ==> #[trigger] final(self).style(k) == old(self).style(k),
            final(self).spec_next_id() == old(self).spec_next_id(),
            final(self).spec_dpi_milli() == old(self).spec_dpi_milli(),
            final(self).spec_screen_size() == old(self).spec_screen_size(),
    {
        self.atlas.packed();
        assert forall|k: int| 0 <= k < self.style_count() implies chain_wf(#[trigger] self.style(k)) by {
            assert(self.style(k) == old(self).style(k));
            assert(chain_wf(old(self).style(k)));
        }
    }

    /// Records that the packing pass ran out of room; says whether to grow and retry.
    pub fn atlas_overflowed(&mut self) -> (r: AtlasStep)
        requires
            old(self).wf(),
        ensures
            final(self).wf(),
            final(self).spec_atlas().spec_resident() == Seq::<GlyphKey>::empty(),
            old(self).spec_atlas().spec_tex_size() < crate::atlas::MAX_ATLAS_SIZE ==> r
                == AtlasStep::Grow((2 * old(self).spec_atlas().spec_tex_size()) as u32),
            old(self).spec_atlas().spec_tex_size() < crate::atlas::MAX_ATLAS_SIZE
                ==> crate::atlas::grew(old(self).spec_atlas(), final(self).spec_atlas()),
            old(self).spec_atlas().spec_tex_size() >= crate::atlas::MAX_ATLAS_SIZE ==> r
                == AtlasStep::GiveUp,
            old(self).spec_atlas().spec_tex_size() >= crate::atlas::MAX_ATLAS_SIZE ==> final(
                self).spec_atlas().spec_queued() == Seq::<GlyphKey>::empty(),
            final(self).spec_queue() == old(self).spec_queue(),
            final(self).style_count() == old(self).style_count(),
            forall|k: int| 0 <= k < old(self).style_count() ==> #[trigger] final(self).style(k) == old(self).style(k),
            final(self).spec_next_id() == old(self).spec_next_id(),
            final(self).spec_dpi_milli() == old(self).spec_dpi_milli(),
            final(self).spec_screen_size() == old(self).spec_screen_size(),
    {
        let r = self.atlas.overflowed();
        assert forall|k: int| 0 <= k < self.style_count() implies chain_wf(#[trigger] self.style(k)) by {
            assert(self.style(k) == old(self).style(k));
            assert(chain_wf(old(self).style(k)));
        }
        r
    }

    /// The queued glyphs that the atlas holds, in drawing order; glyphs it could not
    /// place are skipped.
    pub fn visible_glyphs(&self) -> (r: Vec<QueuedGlyph>)
        requires
            self.wf(),
        ensures
            r@ == resident_only(self.spec_queue(), self.spec_atlas().spec_resident()),
    {
        let mut out: Vec<QueuedGlyph> = Vec::new();
        let mut i: usize = 0;
        while i < self.queue.len()
            invariant
                i <= self.queue@.len(),
                out@ == resident_only(self.queue@.take(i as int), self.atlas.spec_resident()),
            decreases self.queue@.len() - i,
        {
            let g = self.queue[i];
            let key = GlyphKey { font_id: g.glyph.font_id, id: g.glyph.id, size: g.glyph.size };
            assert(self.queue@.take(i + 1).drop_last() =~= self.queue@.take(i as int));
            if self.atlas.is_resident(key) {
                out.push(g);
            }
            i = i + 1;
        }
        assert(self.queue@.take(self.queue@.len() as int) =~= self.queue@);
        out
    }

    /// Ends a frame: the queue is emptied whatever happened to its glyphs.
    pub fn finish_frame(&mut self)
        requires
            old(self).wf(),
        ensures
            final(self).wf(),
            final(self).same_setup(old(self)),
            final(self).spec_queue() == Seq::<QueuedGlyph>::empty(),
    {
        self.queue.clear();
        proof {
            Self::lemma_wf_kept(old(self), &*self);
        }
    }

    /// Id of font `index` of the fallback chain of `style`.
    pub fn font_id(&self, style: usize, index: usize) -> (r: usize)
        requires
            style < self.style_count(),
            index < self.style(style as int).len(),
        ensures
            r == self.style(style as int)[index as int].font_id,
    {
        self.styles[style][index].font_id
    }

    /// Normalised height (cap height plus descent depth, in font units) of font `index`
    /// of the fallback chain of `style`; its height normalisation is the reciprocal.
    pub fn normalised_height(&self, style: usize, index: usize) -> (r: u32)
        requires
            style < self.style_count(),
            index < self.style(style as int).len(),
        ensures
            r == self.style(style as int)[index as int].height,
    {
        self.styles[style][index].height
    }

    /// Number of fonts in the fallback chain of `style`.
    pub fn style_len(&self, style: usize) -> (r: usize)
        requires
            style < self.style_count(),
        ensures
            r == self.style(style as int).len(),
    {
        self.styles[style].len()
    }

    /// Registers a new style from a non-empty fallback chain; returns its index.
    pub fn add_style(&mut self, mut fonts: Vec<FontFace>) -> (index: usize)
        requires
            old(self).wf(),
            fonts@.len() > 0,
            forall|i: int| 0 <= i < fonts@.len() ==> (#[trigger] fonts@[i]).wf(),
            old(self).spec_next_id() + fonts@.len() <= usize::MAX,
        ensures
            final(self).wf(),
            index == old(self).style_count(),
            final(self).style_count() == old(self).style_count() + 1,
            final(self).spec_next_id() == old(self).spec_next_id() + fonts@.len(),
            final(self).spec_queue() == old(self).spec_queue(),
            final(self).spec_atlas() == old(self).spec_atlas(),
            final(self).spec_dpi_milli() == old(self).spec_dpi_milli(),
            final(self).spec_screen_size() == old(self).spec_screen_size(),
            forall|k: int| 0 <= k < old(self).style_count() ==> final(self).style(k) == old(self).style(k),
            final(self).style(index as int).len() == fonts@.len(),
            forall|i: int|
                0 <= i < fonts@.len() ==> #[trigger] final(self).style(index as int)[i] == (StyleFont {
                    font_id: (old(self).spec_next_id() + i) as usize,
                    face: fonts@[i],
                    height: fonts@[i].spec_normalised_height() as u32,
                }),
    {
        let index = self.styles.len();
        let ghost given = fonts@;
        let mut chain: Vec<StyleFont> = Vec::new();
        let mut i: usize = 0;
        let n = fonts.len();
        while i < n
            invariant
                n == given.len(),
                i <= n,
                fonts@ == given.subrange(i as int, n as int),
                old(self).spec_next_id() + n <= usize::MAX,
                self.next_id == old(self).spec_next_id() + i,
                self.styles@ == old(self).styles@,
                self.queue@ == old(self).queue@,
                self.atlas == old(self).atlas,
                self.dpi_milli == old(self).dpi_milli,
                self.screen_size == old(self).screen_size,
                forall|j: int| 0 <= j < n ==> (#[trigger] given[j]).wf(),
                chain@.len() == i,
                forall|j: int|
                    0 <= j < i ==> #[trigger] chain@[j] == (StyleFont {
                        font_id: (old(self).spec_next_id() + j) as usize,
                        face: given[j],
                        height: given[j].spec_normalised_height() as u32,
                    }),
            decreases n - i,
        {
            let face = fonts.remove(0);
            assert(face == given[i as int]);
            let height = ((face.cap_height as i32) - (face.descent as i32)) as u32;
            chain.push(StyleFont { font_id: self.next_id, face, height });
            self.next_id = self.next_id + 1;
            i = i + 1;
            assert(fonts@ =~= given.subrange(i as int, n as int));
        }
        self.styles.push(chain);
        assert(self.style(index as int) == chain@);
        assert forall|k: int| 0 <= k < self.style_count() implies chain_wf(
            #[trigger] self.style(k),
        ) by {
            if k == index {
                assert forall|j: int| 0 <= j < chain@.len() implies (#[trigger] chain@[j]).wf() by {
                    assert(given[j].wf());
                }
            } else {
                assert(self.style(k) == old(self).style(k));
            }
        }
        index
    }
}

} // verus!
