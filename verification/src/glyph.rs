//! Glyphs as the shaping engine reports them, and as the shaper hands them on.

use crate::units::PixelLength;
use vstd::prelude::*;

verus! {

/// One glyph of a shaping engine's output: where in the shaped text it
/// belongs, which glyph of the font it is, and how it is placed.
/// `codepoint` 0 says that the font has no glyph for the text at `cluster`.
/// Advances and offsets are in 26.6 fixed point.
#[derive(Clone, Copy, Debug, PartialEq, Eq, Structural)]
pub struct RawGlyph {
    pub cluster: u32,
    pub codepoint: u32,
    pub x_advance: i32,
    pub y_advance: i32,
    pub x_offset: i32,
    pub y_offset: i32,
}

/// One shaped glyph with what a renderer needs to place it.
#[derive(Clone, Debug, PartialEq, Eq)]
pub struct GlyphInfo {
    /// The text that the glyph stands for.
    pub text: String,
    /// How many terminal cells that text occupies.
    pub num_cells: u8,
    /// Position in the fallback chain of the font that holds the glyph.
    pub font_idx: usize,
    /// The glyph's identifier within that font.
    pub glyph_pos: u32,
    /// Byte offset of the glyph's text in the shaped string.
    pub cluster: u32,
    pub x_advance: PixelLength,
    pub y_advance: PixelLength,
    pub x_offset: PixelLength,
    pub y_offset: PixelLength,
}

/// What a [`GlyphInfo`] holds, as mathematical values.
pub struct GlyphInfoView {
    pub text: Seq<char>,
    pub num_cells: u8,
    pub font_idx: usize,
    pub glyph_pos: u32,
    pub cluster: u32,
    pub x_advance: PixelLength,
    pub y_advance: PixelLength,
    pub x_offset: PixelLength,
    pub y_offset: PixelLength,
}

impl View for GlyphInfo {
    type V = GlyphInfoView;

    open spec fn view(&self) -> GlyphInfoView {
        GlyphInfoView {
            text: self.text@,
            num_cells: self.num_cells,
            font_idx: self.font_idx,
            glyph_pos: self.glyph_pos,
            cluster: self.cluster,
            x_advance: self.x_advance,
            y_advance: self.y_advance,
            x_offset: self.x_offset,
            y_offset: self.y_offset,
        }
    }
}

/// The views of a sequence of glyphs, in order.
pub open spec fn glyphs_view(glyphs: Seq<GlyphInfo>) -> Seq<GlyphInfoView> {
    glyphs.map_values(|g: GlyphInfo| g@)
}

/// The number of terminal cells that `termwiz` counts for a text under its
/// latest Unicode version.
pub uninterp spec fn column_width(text: Seq<char>) -> nat;

/// Calls `termwiz::cell::unicode_column_width` with no Unicode version
/// chosen, which sums the widths of the text's graphemes from the crate's
/// tables. The result is taken to depend on the text alone.
#[verifier::external_body]
fn unicode_column_width(text: &str) -> (cells: usize)
    ensures
        cells as nat == column_width(text@),
{
    termwiz::cell::unicode_column_width(text, None)
}

/// The glyph handed on for `raw`, found in the font at `font_idx` for `text`
/// that is `width` cells wide: the cell count is `width` cut to eight bits,
/// and each advance and offset is the engine's value divided by 64.
pub open spec fn glyph_info_of(text: Seq<char>, width: nat, font_idx: usize, raw: RawGlyph)
    -> GlyphInfoView {
    GlyphInfoView {
        text,
        num_cells: (width % 256) as u8,
        font_idx,
        glyph_pos: raw.codepoint,
        cluster: raw.cluster,
        x_advance: PixelLength::spec_from_26_6(raw.x_advance),
        y_advance: PixelLength::spec_from_26_6(raw.y_advance),
        x_offset: PixelLength::spec_from_26_6(raw.x_offset),
        y_offset: PixelLength::spec_from_26_6(raw.y_offset),
    }
}

/// Builds the glyph for `raw` from a cell count that the caller has at hand.
pub fn glyph_info_with_width(text: &str, width: usize, font_idx: usize, raw: &RawGlyph) -> (info:
    GlyphInfo)
    ensures
        info@ == glyph_info_of(text@, width as nat, font_idx, *raw),
{
    let cells: usize = width % 256;
    GlyphInfo {
        text: text.to_owned(),
        num_cells: cells as u8,
        font_idx,
        glyph_pos: raw.codepoint,
        cluster: raw.cluster,
        x_advance: PixelLength::from_26_6(raw.x_advance),
        y_advance: PixelLength::from_26_6(raw.y_advance),
        x_offset: PixelLength::from_26_6(raw.x_offset),
        y_offset: PixelLength::from_26_6(raw.y_offset),
    }
}

/// Builds the glyph for `raw`, counting the cells of `text` itself.
pub fn make_glyphinfo(text: &str, font_idx: usize, raw: &RawGlyph) -> (info: GlyphInfo)
    ensures
        info@ == glyph_info_of(text@, column_width(text@), font_idx, *raw),
{
    let width: usize = unicode_column_width(text);
    glyph_info_with_width(text, width, font_idx, raw)
}

} // verus!
