//! What shaping with fallback yields, as a mathematical function of the
//! engine's answers.
//!
//! Shaping a text with the font at one position of the chain takes the
//! engine's glyphs for it. Glyphs that the font has are handed on. Each
//! stretch of glyphs that it lacks is shaped again with the next font, and
//! where that fails the replacement text stands in for it, shaped from the
//! first font on. A failure met while shaping the replacement is final.

use crate::clusters::cluster_size;
use crate::engine::{EngineRequest, EngineStage, Query, Reply};
use crate::glyph::{column_width, glyph_info_of, glyphs_view, GlyphInfo, GlyphInfoView, RawGlyph};
use crate::text::{hex_list, hex_list_of, numeral, numeral_text};
use crate::units::FontSize;
use vstd::prelude::*;
use vstd::string::*;
use vstd::utf8::*;

verus! {

/// Whether a text is shaped for its own sake or in place of text that no
/// font of the chain could shape.
#[derive(Clone, Copy, Debug, PartialEq, Eq, Structural)]
pub enum ShapeMode {
    Normal,
    Replacement,
}

impl ShapeMode {
    /// How many more times shaping may turn to the replacement text.
    pub open spec fn rank(self) -> nat {
        match self {
            ShapeMode::Normal => 1,
            ShapeMode::Replacement => 0,
        }
    }
}

/// Why a text could not be shaped.
#[derive(Clone, Debug, PartialEq, Eq)]
pub enum ShapeError {
    /// The chain has no font at the position asked for; the code points are
    /// those of the text that was left unshaped.
    NoMoreFallbacks { codepoints: Vec<u32> },
    /// The engine failed at `stage` with the font at `font_idx`.
    Engine { font_idx: usize, stage: EngineStage },
    /// Not even the replacement text can be shaped.
    NoReplacement,
}

/// A [`ShapeError`] as mathematical values.
pub enum ShapeFault {
    NoMoreFallbacks { codepoints: Seq<u32> },
    Engine { font_idx: usize, stage: EngineStage },
    NoReplacement,
}

impl View for ShapeError {
    type V = ShapeFault;

    open spec fn view(&self) -> ShapeFault {
        match self {
            ShapeError::NoMoreFallbacks { codepoints } => ShapeFault::NoMoreFallbacks {
                codepoints: codepoints@,
            },
            ShapeError::Engine { font_idx, stage } => ShapeFault::Engine {
                font_idx: *font_idx,
                stage: *stage,
            },
            ShapeError::NoReplacement => ShapeFault::NoReplacement,
        }
    }
}

/// What an error says in words.
pub open spec fn fault_message(fault: ShapeFault) -> Seq<char> {
    match fault {
        ShapeFault::NoMoreFallbacks { codepoints } => "No more fallbacks while shaping "@
            + hex_list(codepoints),
        ShapeFault::Engine { font_idx, stage } => "unable to "@ + stage.spec_text()
            + " in font_idx "@ + numeral_text(font_idx as int, 10),
        ShapeFault::NoReplacement => "unable to find any usable glyphs for `?` in font_idx 0"@,
    }
}

impl ShapeError {
    /// What the error says in words.
    pub fn message(&self) -> (text: String)
        ensures
            text@ == fault_message(self@),
    {
        match self {
            ShapeError::NoMoreFallbacks { codepoints } => {
                let mut text: String = "No more fallbacks while shaping ".to_owned();
                let list: String = hex_list_of(codepoints);
                text.append(list.as_str());
                text
            },
            ShapeError::Engine { font_idx, stage } => {
                let mut text: String = "unable to ".to_owned();
                text.append(stage.text());
                text.append(" in font_idx ");
                let position: String = numeral(*font_idx as u64, 10);
                text.append(position.as_str());
                text
            },
            ShapeError::NoReplacement => {
                "unable to find any usable glyphs for `?` in font_idx 0".to_owned()
            },
        }
    }
}

/// Where shaping stands: done with glyphs, done with an error, or in need
/// of an answer that the transcript does not hold yet.
#[derive(Clone, Debug, PartialEq, Eq)]
pub enum ShapeStep {
    Glyphs(Vec<GlyphInfo>),
    Failed(ShapeError),
    Ask(EngineRequest),
}

/// A [`ShapeStep`] as mathematical values.
pub enum Outcome {
    Glyphs(Seq<GlyphInfoView>),
    Failed(ShapeFault),
    Ask(Query),
}

impl View for ShapeStep {
    type V = Outcome;

    open spec fn view(&self) -> Outcome {
        match self {
            ShapeStep::Glyphs(glyphs) => Outcome::Glyphs(glyphs_view(glyphs@)),
            ShapeStep::Failed(error) => Outcome::Failed(error@),
            ShapeStep::Ask(request) => Outcome::Ask(request@),
        }
    }
}

/// What stays the same while one text is shaped: the engine's answers so
/// far, the length of the chain, and the size and density asked for.
pub struct Run {
    pub answers: Map<Query, Reply>,
    pub chain_len: usize,
    pub font_size: FontSize,
    pub dpi: u32,
}

impl Run {
    /// The query that asks for `text` shaped with the font at `font_idx`.
    pub open spec fn query(self, font_idx: usize, text: Seq<char>) -> Query {
        Query { font_idx, text, font_size: self.font_size, dpi: self.dpi }
    }
}

/// The text that stands in for what no font can shape.
pub open spec fn replacement_text() -> Seq<char> {
    seq!['?']
}

/// The code points of a text.
pub open spec fn code_points(text: Seq<char>) -> Seq<u32> {
    text.map_values(|c: char| c as u32)
}

/// Whether byte offset `pos` of `text` lies between two characters, at the
/// start or at the end.
pub open spec fn on_boundary(text: Seq<char>, pos: int) -> bool {
    is_char_boundary(encode_utf8(text), pos)
}

/// Whether the bytes from `start` up to `end` are a piece of `text` cut
/// between characters.
pub open spec fn span_on_boundaries(text: Seq<char>, start: int, end: int) -> bool {
    start <= end && on_boundary(text, start) && on_boundary(text, end)
}

/// The characters that the bytes of `text` from `start` up to `end` encode.
pub open spec fn sub_text(text: Seq<char>, start: int, end: int) -> Seq<char> {
    decode_utf8(encode_utf8(text).subrange(start, end))
}

/// The same glyphs with every cluster offset moved up by `by` bytes.
pub open spec fn shifted(glyphs: Seq<GlyphInfoView>, by: int) -> Seq<GlyphInfoView> {
    glyphs.map_values(|g: GlyphInfoView| GlyphInfoView { cluster: (g.cluster + by) as u32, ..g })
}

/// Whether a failure met while shaping `text` at `font_idx` is final: the
/// replacement is being shaped already, or the text is the replacement
/// itself at the first font.
pub open spec fn is_last_resort(font_idx: usize, text: Seq<char>, mode: ShapeMode) -> bool {
    mode == ShapeMode::Replacement || (font_idx == 0 && text == replacement_text())
}

/// The outcome of shaping `text` with the font at `font_idx` and, for what
/// that font lacks, with the fonts after it.
///
/// An empty text has no glyphs. A position past the chain is an error that
/// names the text's code points. Otherwise the engine's answer decides: a
/// missing answer is asked for, a failure is handed on, and glyphs are
/// scanned from the first.
pub open spec fn shape_run(run: Run, font_idx: usize, text: Seq<char>, mode: ShapeMode) -> Outcome
    decreases mode.rank(), run.chain_len - font_idx, 3nat, 0nat,
{
    if text.len() == 0 {
        Outcome::Glyphs(Seq::empty())
    } else if font_idx >= run.chain_len {
        Outcome::Failed(ShapeFault::NoMoreFallbacks { codepoints: code_points(text) })
    } else if !run.answers.contains_key(run.query(font_idx, text)) {
        Outcome::Ask(run.query(font_idx, text))
    } else {
        match run.answers[run.query(font_idx, text)] {
            Reply::Failed(stage) => Outcome::Failed(ShapeFault::Engine { font_idx, stage }),
            Reply::Shaped(glyphs) => scan(run, font_idx, text, mode, glyphs, 0, None, Seq::empty()),
        }
    }
}

/// The outcome of the scan over `glyphs` from index `i` on, with `done` the
/// glyphs settled so far and `pending` the start of a stretch of glyphs
/// that the font lacks, if the scan is inside one.
///
/// A glyph that the font lacks opens a stretch or extends it. A glyph that
/// it has first closes the stretch before it, which ends where the glyph
/// starts, and then is emitted. At the end an open stretch is closed at the
/// end of the text. The first step that does not yield glyphs ends the scan
/// with its outcome.
pub open spec fn scan(
    run: Run,
    font_idx: usize,
    text: Seq<char>,
    mode: ShapeMode,
    glyphs: Seq<RawGlyph>,
    i: int,
    pending: Option<int>,
    done: Seq<GlyphInfoView>,
) -> Outcome
    decreases mode.rank(), run.chain_len - font_idx, 2nat, glyphs.len() - i,
    when font_idx < run.chain_len
{
    if i >= glyphs.len() {
        match pending {
            None => Outcome::Glyphs(done),
            Some(start) => match flush(
                run,
                font_idx,
                text,
                mode,
                start,
                encode_utf8(text).len() as int,
            ) {
                Outcome::Glyphs(tail) => Outcome::Glyphs(done + tail),
                other => other,
            },
        }
    } else if glyphs[i].codepoint == 0 {
        let opened = if pending is None {
            Some(glyphs[i].cluster as int)
        } else {
            pending
        };
        scan(run, font_idx, text, mode, glyphs, i + 1, opened, done)
    } else {
        let closed = match pending {
            None => Outcome::Glyphs(Seq::empty()),
            Some(start) => flush(run, font_idx, text, mode, start, glyphs[i].cluster as int),
        };
        match closed {
            Outcome::Glyphs(stretch) => match emit(run, font_idx, text, mode, glyphs, i) {
                Outcome::Glyphs(own) => scan(
                    run,
                    font_idx,
                    text,
                    mode,
                    glyphs,
                    i + 1,
                    None,
                    done + stretch + own,
                ),
                other => other,
            },
            other => other,
        }
    }
}

/// The outcome for a stretch of the text, from byte `start` up to `end`,
/// that the font at `font_idx` lacks.
///
/// A stretch cut between characters is shaped with the next font, and its
/// glyphs are moved up by `start` so that their offsets count from the
/// start of `text`. Where the next font fails, the replacement stands in,
/// moved up likewise. A stretch that is not cut between characters gets the
/// replacement as it is.
pub open spec fn flush(
    run: Run,
    font_idx: usize,
    text: Seq<char>,
    mode: ShapeMode,
    start: int,
    end: int,
) -> Outcome
    decreases mode.rank(), run.chain_len - font_idx, 1nat, 0nat,
    when font_idx < run.chain_len
{
    if !span_on_boundaries(text, start, end) {
        substitute(run, font_idx, text, mode, 0)
    } else {
        match shape_run(run, (font_idx + 1) as usize, sub_text(text, start, end), mode) {
            Outcome::Glyphs(glyphs) => Outcome::Glyphs(shifted(glyphs, start)),
            Outcome::Ask(query) => Outcome::Ask(query),
            Outcome::Failed(_) => substitute(run, font_idx, text, mode, start),
        }
    }
}

/// The outcome for glyph `i`, which the font at `font_idx` has: the glyph
/// itself with the text of its span, where that span is cut between
/// characters, and the replacement as it is where not.
pub open spec fn emit(
    run: Run,
    font_idx: usize,
    text: Seq<char>,
    mode: ShapeMode,
    glyphs: Seq<RawGlyph>,
    i: int,
) -> Outcome
    decreases mode.rank(), run.chain_len - font_idx, 1nat, 0nat,
    when font_idx < run.chain_len
{
    let pos = glyphs[i].cluster as int;
    let size = cluster_size(glyphs, encode_utf8(text).len() as int, i);
    if on_boundary(text, pos) && on_boundary(text, pos + size) {
        let piece = sub_text(text, pos, pos + size);
        Outcome::Glyphs(seq![glyph_info_of(piece, column_width(piece), font_idx, glyphs[i])])
    } else {
        substitute(run, font_idx, text, mode, 0)
    }
}

/// The replacement text shaped from the first font on, with its glyphs
/// moved up by `by`; an error where a failure here is final.
pub open spec fn substitute(
    run: Run,
    font_idx: usize,
    text: Seq<char>,
    mode: ShapeMode,
    by: int,
) -> Outcome
    decreases mode.rank(), run.chain_len - font_idx, 0nat, 0nat,
    when font_idx < run.chain_len
{
    if is_last_resort(font_idx, text, mode) {
        Outcome::Failed(ShapeFault::NoReplacement)
    } else {
        match shape_run(run, 0, replacement_text(), ShapeMode::Replacement) {
            Outcome::Glyphs(glyphs) => Outcome::Glyphs(shifted(glyphs, by)),
            other => other,
        }
    }
}

} // verus!
