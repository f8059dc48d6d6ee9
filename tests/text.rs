use glyphloop::atlas::{AtlasStep, GlyphAtlas, GlyphKey, INITIAL_ATLAS_SIZE, MAX_ATLAS_SIZE};
use glyphloop::font::{FontFace, GlyphEntry, KerningEntry};
use glyphloop::layout::{chars_of, scale, Alignment};
use glyphloop::text::TextRenderer;

const WHITE: [u8; 4] = [255, 255, 255, 255];

fn entry(ch: char, id: u16, advance: u16, left_side_bearing: i16) -> GlyphEntry {
    GlyphEntry { ch, id, advance, left_side_bearing }
}

/// Cap height 700, descent -200: normalised height 900.
fn latin() -> FontFace {
    FontFace {
        glyphs: vec![entry('A', 1, 600, 10), entry('B', 2, 500, 20), entry('V', 3, 640, 0)],
        notdef_advance: 300,
        notdef_left_side_bearing: 5,
        kerning: vec![KerningEntry { left: 1, right: 3, adjust: -40 }],
        cap_height: 700,
        ascent: 800,
        descent: -200,
        line_gap: 100,
    }
}

fn symbols() -> FontFace {
    FontFace {
        glyphs: vec![entry('Z', 7, 450, 1)],
        notdef_advance: 200,
        notdef_left_side_bearing: 0,
        kerning: vec![],
        cap_height: 600,
        ascent: 900,
        descent: -300,
        line_gap: 0,
    }
}

/// Normalised height 1000, so at size 1000 one font unit is one layout unit.
fn square() -> FontFace {
    FontFace {
        glyphs: vec![entry('M', 1, 1600, 0)],
        notdef_advance: 1000,
        notdef_left_side_bearing: 0,
        kerning: vec![],
        cap_height: 800,
        ascent: 800,
        descent: -200,
        line_gap: 200,
    }
}

fn renderer(fonts: Vec<FontFace>) -> TextRenderer {
    let mut r = TextRenderer::new();
    r.add_style(fonts);
    r
}

#[test]
fn style_height_normalisation() {
    let r = renderer(vec![latin()]);
    assert_eq!(r.normalised_height(0, 0), 900);
    assert_eq!(r.font_id(0, 0), 0);
}

#[test]
fn fallback_fonts_get_fresh_ids() {
    let mut r = renderer(vec![latin(), symbols()]);
    assert_eq!(r.font_id(0, 1), 1);
    assert_eq!(r.normalised_height(0, 1), 900);
    let s = r.add_style(vec![square()]);
    assert_eq!(s, 1);
    assert_eq!(r.font_id(1, 0), 2);
    r.add_fallback_font(1, latin());
    assert_eq!(r.style_len(1), 2);
    assert_eq!(r.font_id(1, 1), 3);
}

#[test]
fn scale_rounds_down() {
    assert_eq!(scale(600, 1280, 900), 853);
    assert_eq!(scale(-40, 1280, 900), -57);
    assert_eq!(scale(-200, 1280, 900), -285);
    assert_eq!(scale(0, 1280, 900), 0);
}

#[test]
fn chars_of_keeps_every_character() {
    assert_eq!(chars_of("aé\nb"), vec!['a', 'é', '\n', 'b']);
    assert!(chars_of("").is_empty());
}

#[test]
fn layout_width_is_advances_plus_kerning() {
    let r = renderer(vec![latin()]);
    let t = r.layout("AV", 1280, 0);
    // advances 853 + 910, kerning A-V -57
    assert_eq!(t.width, 853 + 910 - 57);
    assert_eq!(t.glyphs.len(), 2);
    assert_eq!(t.glyphs[0].0, 0);
    // the A-V kerning moves V, the second glyph of the pair
    assert_eq!(t.glyphs[1].0, 853 - 57);
    assert_eq!(t.left_side_bearing, 14);
    assert!(t.glyphs.iter().all(|g| g.1.font_id == 0));
    assert_eq!(t.glyphs[1].1.id, 3);
    assert_eq!(t.glyphs[1].1.unit_divisor, 900);
}

#[test]
fn layout_without_kerning_pair() {
    let r = renderer(vec![latin()]);
    let t = r.layout("VA", 1280, 0);
    assert_eq!(t.width, 910 + 853);
}

#[test]
fn layout_falls_back_to_covering_font() {
    let r = renderer(vec![latin(), symbols()]);
    let t = r.layout("AZ", 1280, 0);
    assert_eq!(t.glyphs[1].1.font_id, 1);
    assert_eq!(t.glyphs[1].1.id, 7);
    assert_eq!(t.width, 853 + 640);
}

#[test]
fn layout_missing_glyph_uses_first_font_unnormalised() {
    let r = renderer(vec![latin(), symbols()]);
    let t = r.layout("Q", 1280, 0);
    assert_eq!(t.glyphs[0].1.font_id, 0);
    assert_eq!(t.glyphs[0].1.id, 0);
    assert_eq!(t.glyphs[0].1.unit_divisor, 1000);
    assert_eq!(t.width, 384);
}

#[test]
fn layout_empty_text() {
    let r = renderer(vec![latin()]);
    let t = r.layout("", 1280, 0);
    assert_eq!(t.width, 0);
    assert_eq!(t.left_side_bearing, 0);
    assert!(t.glyphs.is_empty());
}

#[test]
fn layout_vertical_metrics_of_first_font() {
    let r = renderer(vec![latin(), symbols()]);
    let t = r.layout("Z", 1280, 0);
    assert_eq!(t.vertical.ascent, 1137);
    assert_eq!(t.vertical.descent, -285);
    assert_eq!(t.vertical.line_gap, 142);
}

#[test]
fn draw_text_two_lines_left() {
    let mut r = renderer(vec![latin()]);
    r.set_screen_size((800 * 64, 600 * 64));
    r.draw_text("A\nB", 640, 6400, Alignment::Left, WHITE, 1280, 0);
    let q = r.pending();
    assert_eq!(q.len(), 2);
    let line_step = 1137 + 285 + 142;
    assert_eq!(q[0].x, 640);
    assert_eq!(q[0].y, 600 * 64 - 6400);
    assert_eq!(q[1].x, 640);
    assert_eq!(q[1].y, 600 * 64 - (6400 - line_step));
    assert_eq!(q[0].glyph.id, 1);
    assert_eq!(q[1].glyph.id, 2);
    assert_eq!(q[0].color, WHITE);
}

#[test]
fn draw_text_right_alignment_ends_at_anchor() {
    let mut r = renderer(vec![square()]);
    r.draw_text("MM", 12800, 0, Alignment::Right, WHITE, 1000, 0);
    let q = r.pending();
    assert_eq!(q[0].x, 9600);
    assert_eq!(q[1].x, 11200);
    assert_eq!(q[1].x + 1600, 12800);
}

#[test]
fn draw_text_center_alignment() {
    let mut r = renderer(vec![square()]);
    r.draw_text("MM", 12800, 0, Alignment::Center, WHITE, 1000, 0);
    let q = r.pending();
    assert_eq!(q[0].x, 11200);
}

#[test]
fn draw_text_lines_like_str_lines() {
    let mut r = renderer(vec![square()]);
    r.draw_text("M\r\n\nM\n", 0, 0, Alignment::Left, WHITE, 1000, 0);
    let q = r.pending();
    assert_eq!(q.len(), 2);
    assert_eq!(q[0].y, 0);
    // one empty line between: two line advances of 800 + 200 + 200
    assert_eq!(q[1].y, 2400);
}

#[test]
fn draw_glyph_scales_to_device() {
    let mut r = renderer(vec![square()]);
    r.set_dpi_milli(2000);
    r.set_screen_size((100, 1000));
    let t = r.layout("M", 1000, 0);
    r.draw_glyph(10, 300, WHITE, t.glyphs[0].1);
    let q = r.pending();
    assert_eq!(q[0].x, 20);
    assert_eq!(q[0].y, 1400);
    assert_eq!(q[0].glyph.size, 2000);
    r.set_dpi_milli(1500);
    r.draw_glyph(-3, 0, WHITE, t.glyphs[0].1);
    assert_eq!(r.pending()[1].x, -5);
}

#[test]
fn render_flow_clears_queue() {
    let mut r = renderer(vec![latin()]);
    r.draw_text("AB", 0, 0, Alignment::Left, WHITE, 1280, 0);
    r.draw_text("A", 0, 0, Alignment::Left, WHITE, 1280, 0);
    r.stage_pending();
    r.atlas_packed();
    assert_eq!(r.visible_glyphs().len(), 3);
    r.finish_frame();
    assert!(r.pending().is_empty());
    assert_eq!(r.atlas_size(), INITIAL_ATLAS_SIZE);
}

#[test]
fn render_flow_growth_keeps_glyphs() {
    let mut r = renderer(vec![latin()]);
    r.draw_text("AB", 0, 0, Alignment::Left, WHITE, 1280, 0);
    r.stage_pending();
    assert_eq!(r.atlas_overflowed(), AtlasStep::Grow(1024));
    assert!(r.visible_glyphs().is_empty());
    r.atlas_packed();
    assert_eq!(r.visible_glyphs().len(), 2);
    assert_eq!(r.atlas_size(), 1024);
}

fn key(i: u16) -> GlyphKey {
    GlyphKey { font_id: 0, id: i, size: 1280 }
}

#[test]
fn atlas_queue_twice_packs_once() {
    let mut a = GlyphAtlas::new();
    a.queue(key(5));
    a.queue(key(5));
    assert_eq!(a.queued_len(), 1);
    a.packed();
    assert_eq!(a.resident_len(), 1);
    assert!(a.is_resident(key(5)));
    assert_eq!(a.queued_len(), 0);
}

#[test]
fn atlas_growth_never_loses_a_glyph() {
    let mut a = GlyphAtlas::new();
    for i in 1..=200u16 {
        a.queue(key(i));
    }
    assert_eq!(a.overflowed(), AtlasStep::Grow(1024));
    assert_eq!(a.overflowed(), AtlasStep::Grow(2048));
    assert_eq!(a.queued_len(), 200);
    a.packed();
    assert_eq!(a.tex_size(), 2048);
    for i in 1..=200u16 {
        assert!(a.is_resident(key(i)));
    }
    assert!(!a.is_resident(key(201)));
}

#[test]
fn atlas_gives_up_at_largest_size() {
    let mut a = GlyphAtlas::new();
    a.queue(key(1));
    let mut size = INITIAL_ATLAS_SIZE;
    while size < MAX_ATLAS_SIZE {
        size *= 2;
        assert_eq!(a.overflowed(), AtlasStep::Grow(size));
    }
    assert_eq!(a.overflowed(), AtlasStep::GiveUp);
    assert_eq!(a.queued_len(), 0);
    assert_eq!(a.tex_size(), MAX_ATLAS_SIZE);
}

#[test]
fn right_aligned_kerned_text_ends_at_anchor() {
    let mut r = renderer(vec![latin()]);
    r.draw_text("AV", 12800, 0, Alignment::Right, WHITE, 1280, 0);
    let q = r.pending();
    let left = 12800 - (853 + 910 - 57);
    assert_eq!(q[0].x, left);
    assert_eq!(q[1].x, left + 853 - 57);
    assert_eq!(q[1].x + 910, 12800);
}

#[test]
fn carriage_return_kept_without_newline() {
    let mut r = renderer(vec![square()]);
    r.draw_text("M\r", 0, 0, Alignment::Left, WHITE, 1000, 0);
    assert_eq!(r.pending().len(), 2);
    assert_eq!(r.pending()[1].glyph.id, 0);
}
