use font_shaper::glyph::{glyph_info_with_width, make_glyphinfo, GlyphInfo, RawGlyph};
use font_shaper::units::{FontSize, PixelLength, UNITS_PER_PIXEL, UNITS_PER_SIXTY_FOURTH};

fn raw() -> RawGlyph {
    RawGlyph {
        cluster: 7,
        codepoint: 42,
        x_advance: 640,
        y_advance: -64,
        x_offset: 1,
        y_offset: 0,
    }
}

#[test]
fn a_glyph_keeps_what_the_engine_said() {
    let info = make_glyphinfo("a", 3, &raw());
    assert_eq!(
        info,
        GlyphInfo {
            text: "a".to_string(),
            num_cells: 1,
            font_idx: 3,
            glyph_pos: 42,
            cluster: 7,
            x_advance: PixelLength { units: 10 * UNITS_PER_PIXEL },
            y_advance: PixelLength { units: -UNITS_PER_PIXEL },
            x_offset: PixelLength { units: 65536 },
            y_offset: PixelLength { units: 0 },
        }
    );
}

#[test]
fn wide_characters_take_two_cells() {
    assert_eq!(make_glyphinfo("汉", 0, &raw()).num_cells, 2);
    assert_eq!(make_glyphinfo("汉字", 0, &raw()).num_cells, 4);
}

#[test]
fn a_combining_mark_adds_no_cell() {
    assert_eq!(make_glyphinfo("e\u{301}", 0, &raw()).num_cells, 1);
}

#[test]
fn no_text_takes_no_cell() {
    assert_eq!(make_glyphinfo("", 0, &raw()).num_cells, 0);
}

#[test]
fn the_cell_count_is_cut_to_eight_bits() {
    assert_eq!(glyph_info_with_width("x", 300, 0, &raw()).num_cells, 44);
    assert_eq!(glyph_info_with_width("x", 256, 0, &raw()).num_cells, 0);
    assert_eq!(glyph_info_with_width("x", 255, 0, &raw()).num_cells, 255);
    let text = "w".repeat(260);
    assert_eq!(make_glyphinfo(&text, 0, &raw()).num_cells, 4);
}

#[test]
fn sixty_fourths_become_pixels() {
    assert_eq!(PixelLength::from_26_6(64).units, UNITS_PER_PIXEL);
    assert_eq!(PixelLength::from_26_6(1).units, UNITS_PER_SIXTY_FOURTH);
    assert_eq!(PixelLength::from_26_6(-96).units, -6291456);
    assert_eq!(PixelLength::from_26_6(i32::MAX).units, 140737488289792);
    assert_eq!(PixelLength::from_26_6(i32::MIN).units, -140737488355328);
}

#[test]
fn sizes_compare_by_their_bits() {
    assert_eq!(FontSize { bits: 12.0f64.to_bits() }, FontSize { bits: 12.0f64.to_bits() });
    assert_ne!(FontSize { bits: 12.0f64.to_bits() }, FontSize { bits: 12.001f64.to_bits() });
}
