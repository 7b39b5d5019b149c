//! What holds of shaping and of the face cache, whatever the engine answers.

use crate::cache::{metrics_step, setup_for, slot_after, FaceSetup, FontPair};
use crate::clusters::{cluster_at, cluster_size};
use crate::engine::{EngineStage, Query, Reply};
use crate::glyph::{column_width, glyph_info_of, GlyphInfoView, RawGlyph};
use crate::metrics::{FaceReply, FaceRequest, MetricsStep};
use crate::model::{
    emit, flush, on_boundary, replacement_text, scan, shape_run, shifted, span_on_boundaries,
    sub_text, substitute, Outcome, Run, ShapeFault, ShapeMode,
};
use crate::partition::{answers_ascend, lemma_answer_at};
use crate::shaper::HarfbuzzShaper;
use crate::text::{
    lemma_empty_text_has_no_bytes, lemma_piece_bytes, lemma_whole_text_is_a_piece,
};
use crate::units::FontSize;
use vstd::prelude::*;
use vstd::utf8::*;

verus! {

/// An empty text shapes to no glyphs: at every position of the chain, also
/// past its end, whatever the engine has answered, and never with an error.
pub proof fn lemma_empty_text_has_no_glyphs(run: Run, font_idx: usize, mode: ShapeMode)
    ensures
        shape_run(run, font_idx, Seq::empty(), mode) == Outcome::Glyphs(Seq::empty()),
{
}

/// Once a face has been sized for a query, a second query for the same size
/// and density neither opens nor sizes it again: the request for a second
/// reading of the metrics says so.
pub proof fn lemma_same_size_is_not_set_again(
    chain_len: usize,
    slot: Option<FontPair>,
    size: FontSize,
    dpi: u32,
)
    requires
        chain_len > 0,
    ensures
        setup_for(slot_after(slot, size, dpi, None), size, dpi) == (FaceSetup {
            open: false,
            resize: false,
        }),
        metrics_step(chain_len, slot_after(slot, size, dpi, None), size, dpi, None)
            == MetricsStep::Ask(
            FaceRequest { font_idx: 0, font_size: size, dpi, open: false, resize: false },
        ),
{
}

/// A face that was never sized is sized before its first use, whatever the
/// size and the density asked for: both a face that is still to be opened
/// and one that is open without a size.
pub proof fn lemma_unsized_face_is_sized(size: FontSize, dpi: u32)
    ensures
        setup_for(None, size, dpi) == (FaceSetup { open: true, resize: true }),
        setup_for(Some(FontPair { sized: None }), size, dpi) == (FaceSetup {
            open: false,
            resize: true,
        }),
        setup_for(slot_after(None, size, dpi, Some(EngineStage::Resize)), size, dpi).resize,
{
}

/// A face is opened at most once: where one is open, no request asks to
/// open it, and whatever the host reports of a request, it stays open.
pub proof fn lemma_face_is_opened_once(
    slot: Option<FontPair>,
    size: FontSize,
    dpi: u32,
    failed: Option<EngineStage>,
    next_size: FontSize,
    next_dpi: u32,
)
    requires
        slot is Some,
    ensures
        !setup_for(slot, size, dpi).open,
        slot_after(slot, size, dpi, failed) is Some,
        !setup_for(slot_after(slot, size, dpi, failed), next_size, next_dpi).open,
{
}

/// Two queries for metrics with the same arguments and the same reading
/// give the same metrics, whatever is remembered of the face at either
/// time.
pub proof fn lemma_metrics_repeat(
    chain_len: usize,
    first: Option<FontPair>,
    second: Option<FontPair>,
    size: FontSize,
    dpi: u32,
    reply: FaceReply,
)
    ensures
        metrics_step(chain_len, first, size, dpi, Some(reply)) == metrics_step(
            chain_len,
            second,
            size,
            dpi,
            Some(reply),
        ),
{
}

/// What shaping yields does not depend on which faces are open or on the
/// sizes they were set to: a shaper that starts cold and one whose cache is
/// warm go the same way over the same chain and the same answers.
pub proof fn lemma_cache_is_transparent(
    cold: HarfbuzzShaper,
    warm: HarfbuzzShaper,
    size: FontSize,
    dpi: u32,
    answers: Map<Query, Reply>,
    font_idx: usize,
    text: Seq<char>,
    mode: ShapeMode,
)
    requires
        cold.chain_len() == warm.chain_len(),
    ensures
        shape_run(cold.run(size, dpi, answers), font_idx, text, mode) == shape_run(
            warm.run(size, dpi, answers),
            font_idx,
            text,
            mode,
        ),
{
}

/// Past the end of the chain a text that is not empty is not shaped.
proof fn lemma_past_chain(run: Run, font_idx: usize, text: Seq<char>, mode: ShapeMode)
    requires
        font_idx >= run.chain_len,
        text.len() > 0,
    ensures
        shape_run(run, font_idx, text, mode) == Outcome::Failed(
            ShapeFault::NoMoreFallbacks { codepoints: crate::model::code_points(text) },
        ),
{
}

/// Moving glyphs up by no bytes leaves them as they are.
proof fn lemma_shifted_by_zero(glyphs: Seq<GlyphInfoView>)
    ensures
        shifted(glyphs, 0) == glyphs,
{
    assert(shifted(glyphs, 0) =~= glyphs);
}

/// The font has every glyph of the engine's answer, and every glyph's span
/// is cut between characters of the text.
pub open spec fn font_has_all(text: Seq<char>, glyphs: Seq<RawGlyph>) -> bool {
    forall|i: int|
        0 <= i < glyphs.len() ==> {
            &&& (#[trigger] glyphs[i]).codepoint != 0
            &&& on_boundary(text, glyphs[i].cluster as int)
            &&& on_boundary(
                text,
                glyphs[i].cluster + cluster_size(glyphs, encode_utf8(text).len() as int, i),
            )
        }
}

/// Glyph `i` as it is handed on from the font at `font_idx`, with the
/// piece of `text` that its span cuts out.
pub open spec fn handed_on(text: Seq<char>, font_idx: usize, glyphs: Seq<RawGlyph>, i: int)
    -> GlyphInfoView {
    let pos = glyphs[i].cluster as int;
    let piece = sub_text(
        text,
        pos,
        pos + cluster_size(glyphs, encode_utf8(text).len() as int, i),
    );
    glyph_info_of(piece, column_width(piece), font_idx, glyphs[i])
}

/// The glyphs from index `from` on, each as it is handed on.
pub open spec fn handed_on_from(
    text: Seq<char>,
    font_idx: usize,
    glyphs: Seq<RawGlyph>,
    from: int,
) -> Seq<GlyphInfoView> {
    Seq::new((glyphs.len() - from) as nat, |j: int| handed_on(text, font_idx, glyphs, from + j))
}

proof fn lemma_scan_of_resolved(
    run: Run,
    font_idx: usize,
    text: Seq<char>,
    mode: ShapeMode,
    glyphs: Seq<RawGlyph>,
    i: int,
    done: Seq<GlyphInfoView>,
)
    requires
        font_idx < run.chain_len,
        0 <= i <= glyphs.len(),
        font_has_all(text, glyphs),
    ensures
        scan(run, font_idx, text, mode, glyphs, i, None, done) == Outcome::Glyphs(
            done + handed_on_from(text, font_idx, glyphs, i),
        ),
    decreases glyphs.len() - i,
{
    if i >= glyphs.len() {
        assert(done + handed_on_from(text, font_idx, glyphs, i) =~= done);
    } else {
        assert(glyphs[i].codepoint != 0);
        let own = seq![handed_on(text, font_idx, glyphs, i)];
        assert(emit(run, font_idx, text, mode, glyphs, i) == Outcome::Glyphs(own));
        let next = done + Seq::<GlyphInfoView>::empty() + own;
        lemma_scan_of_resolved(run, font_idx, text, mode, glyphs, i + 1, next);
        assert(next + handed_on_from(text, font_idx, glyphs, i + 1) =~= done + handed_on_from(
            text,
            font_idx,
            glyphs,
            i,
        ));
    }
}

/// A text that one font resolves entirely stays with that font: where the
/// engine's answer for the font at `font_idx` has a glyph for every part of
/// the text, shaping hands on exactly these glyphs, in order, and each
/// reports `font_idx`. No other font is asked.
pub proof fn lemma_resolved_text_stays_with_its_font(
    run: Run,
    font_idx: usize,
    text: Seq<char>,
    mode: ShapeMode,
    glyphs: Seq<RawGlyph>,
)
    requires
        text.len() > 0,
        font_idx < run.chain_len,
        run.answers.contains_key(run.query(font_idx, text)),
        run.answers[run.query(font_idx, text)] == Reply::Shaped(glyphs),
        font_has_all(text, glyphs),
    ensures
        shape_run(run, font_idx, text, mode) == Outcome::Glyphs(
            handed_on_from(text, font_idx, glyphs, 0),
        ),
        forall|i: int|
            0 <= i < glyphs.len() ==> (#[trigger] handed_on_from(
                text,
                font_idx,
                glyphs,
                0,
            )[i]).font_idx == font_idx,
{
    lemma_scan_of_resolved(run, font_idx, text, mode, glyphs, 0, Seq::empty());
    assert(Seq::<GlyphInfoView>::empty() + handed_on_from(text, font_idx, glyphs, 0)
        =~= handed_on_from(text, font_idx, glyphs, 0));
}

/// The engine has answered for `text` with the font at `font_idx`, and the
/// font has none of its glyphs: the answer holds glyphs, all of them glyph
/// 0, from the start of the text.
pub open spec fn font_lacks_all(run: Run, font_idx: usize, text: Seq<char>) -> bool {
    &&& run.answers.contains_key(run.query(font_idx, text))
    &&& run.answers[run.query(font_idx, text)] matches Reply::Shaped(glyphs)
    &&& glyphs.len() > 0
    &&& glyphs[0].cluster == 0
    &&& forall|i: int| 0 <= i < glyphs.len() ==> (#[trigger] glyphs[i]).codepoint == 0
}

/// No font of the chain has a glyph for `text`.
pub open spec fn chain_lacks_all(run: Run, text: Seq<char>) -> bool {
    forall|k: usize| k < run.chain_len ==> #[trigger] font_lacks_all(run, k, text)
}

proof fn lemma_scan_of_lacking(
    run: Run,
    font_idx: usize,
    text: Seq<char>,
    mode: ShapeMode,
    glyphs: Seq<RawGlyph>,
    i: int,
    done: Seq<GlyphInfoView>,
)
    requires
        font_idx < run.chain_len,
        0 <= i <= glyphs.len(),
        glyphs.len() > 0,
        glyphs[0].cluster == 0,
        forall|j: int| 0 <= j < glyphs.len() ==> (#[trigger] glyphs[j]).codepoint == 0,
    ensures
        scan(run, font_idx, text, mode, glyphs, i, if i == 0 {
            None
        } else {
            Some(0int)
        }, done) == (match flush(
            run,
            font_idx,
            text,
            mode,
            0,
            encode_utf8(text).len() as int,
        ) {
            Outcome::Glyphs(tail) => Outcome::Glyphs(done + tail),
            other => other,
        }),
    decreases glyphs.len() - i,
{
    if i < glyphs.len() {
        assert(glyphs[i].codepoint == 0);
        lemma_scan_of_lacking(run, font_idx, text, mode, glyphs, i + 1, done);
    }
}

proof fn lemma_lacking_in_replacement(run: Run, text: Seq<char>, k: usize)
    requires
        k < run.chain_len,
        text.len() > 0,
        chain_lacks_all(run, text),
    ensures
        shape_run(run, k, text, ShapeMode::Replacement) == Outcome::Failed(
            ShapeFault::NoReplacement,
        ),
    decreases run.chain_len - k,
{
    let mode = ShapeMode::Replacement;
    assert(font_lacks_all(run, k, text));
    let glyphs = run.answers[run.query(k, text)]->Shaped_0;
    lemma_scan_of_lacking(run, k, text, mode, glyphs, 0, Seq::empty());
    lemma_whole_text_is_a_piece(text);
    if k + 1 < run.chain_len {
        lemma_lacking_in_replacement(run, text, (k + 1) as usize);
    } else {
        lemma_past_chain(run, (k + 1) as usize, text, mode);
    }
    assert(substitute(run, k, text, mode, 0) == Outcome::Failed(ShapeFault::NoReplacement));
    assert(flush(run, k, text, mode, 0, encode_utf8(text).len() as int) == Outcome::Failed(
        ShapeFault::NoReplacement,
    ));
}

proof fn lemma_lacking_in_normal(run: Run, text: Seq<char>, k: usize)
    requires
        k < run.chain_len,
        text.len() > 0,
        chain_lacks_all(run, text),
        text == replacement_text() ==> shape_run(
            run,
            0,
            replacement_text(),
            ShapeMode::Replacement,
        ) == Outcome::Failed(ShapeFault::NoReplacement),
    ensures
        shape_run(run, k, text, ShapeMode::Normal) == shape_run(
            run,
            0,
            replacement_text(),
            ShapeMode::Replacement,
        ),
    decreases run.chain_len - k,
{
    let mode = ShapeMode::Normal;
    let stand_in = shape_run(run, 0, replacement_text(), ShapeMode::Replacement);
    assert(font_lacks_all(run, k, text));
    let glyphs = run.answers[run.query(k, text)]->Shaped_0;
    lemma_scan_of_lacking(run, k, text, mode, glyphs, 0, Seq::empty());
    lemma_whole_text_is_a_piece(text);
    if k + 1 < run.chain_len {
        lemma_lacking_in_normal(run, text, (k + 1) as usize);
    } else {
        lemma_past_chain(run, (k + 1) as usize, text, mode);
    }
    if stand_in is Glyphs {
        lemma_shifted_by_zero(stand_in->Glyphs_0);
    }
    assert(substitute(run, k, text, mode, 0) == stand_in);
    let closed = flush(run, k, text, mode, 0, encode_utf8(text).len() as int);
    assert(closed == stand_in);
    if closed is Glyphs {
        assert(Seq::<GlyphInfoView>::empty() + closed->Glyphs_0 =~= closed->Glyphs_0);
    }
}

/// Where no font of the chain has a glyph for the replacement text, shaping
/// it fails, in either mode: there is nothing left to fall back to.
pub proof fn lemma_replacement_that_no_font_has_fails(run: Run, mode: ShapeMode)
    requires
        run.chain_len > 0,
        chain_lacks_all(run, replacement_text()),
    ensures
        shape_run(run, 0, replacement_text(), mode) == Outcome::Failed(ShapeFault::NoReplacement),
{
    lemma_lacking_in_replacement(run, replacement_text(), 0);
    if mode == ShapeMode::Normal {
        lemma_lacking_in_normal(run, replacement_text(), 0);
    }
}

/// Where no font of the chain has a glyph for a text, shaping it yields
/// what shaping the replacement text yields: the replacement's glyphs and
/// no error where the replacement can be shaped, and the replacement's
/// failure where it cannot.
pub proof fn lemma_text_that_no_font_has_is_replaced(run: Run, text: Seq<char>)
    requires
        run.chain_len > 0,
        text.len() > 0,
        chain_lacks_all(run, text),
    ensures
        shape_run(run, 0, text, ShapeMode::Normal) == shape_run(
            run,
            0,
            replacement_text(),
            ShapeMode::Replacement,
        ),
{
    if text == replacement_text() {
        lemma_lacking_in_replacement(run, replacement_text(), 0);
    }
    lemma_lacking_in_normal(run, text, 0);
}

/// The engine answers every request for a font of the chain with glyphs:
/// no answer is missing, and none is a failure.
pub open spec fn engine_answers_all(run: Run) -> bool {
    forall|font_idx: usize, text: Seq<char>|
        font_idx < run.chain_len && text.len() > 0 ==> run.answers.contains_key(
            #[trigger] run.query(font_idx, text),
        ) && run.answers[run.query(font_idx, text)] is Shaped
}

/// The first font has a glyph for every part of the replacement text.
pub open spec fn first_font_has_replacement(run: Run) -> bool {
    &&& run.answers.contains_key(run.query(0, replacement_text()))
    &&& run.answers[run.query(0, replacement_text())] matches Reply::Shaped(glyphs)
    &&& forall|i: int| 0 <= i < glyphs.len() ==> (#[trigger] glyphs[i]).codepoint != 0
}

/// Ascending glyphs that the font has all are glyphs that it resolves.
proof fn lemma_ascending_glyphs_resolve(
    run: Run,
    font_idx: usize,
    text: Seq<char>,
    glyphs: Seq<RawGlyph>,
)
    requires
        answers_ascend(run),
        run.answers.contains_key(run.query(font_idx, text)),
        run.answers[run.query(font_idx, text)] == Reply::Shaped(glyphs),
        forall|i: int| 0 <= i < glyphs.len() ==> (#[trigger] glyphs[i]).codepoint != 0,
    ensures
        font_has_all(text, glyphs),
{
    assert forall|i: int| 0 <= i < glyphs.len() implies {
        &&& (#[trigger] glyphs[i]).codepoint != 0
        &&& on_boundary(text, glyphs[i].cluster as int)
        &&& on_boundary(
            text,
            glyphs[i].cluster + cluster_size(glyphs, encode_utf8(text).len() as int, i),
        )
    } by {
        lemma_answer_at(run, font_idx, text, glyphs, i);
        lemma_answer_at(run, font_idx, text, glyphs, i + 1);
    }
}

/// The replacement has glyphs where the first font has it.
proof fn lemma_stand_in_is_had(run: Run)
    requires
        answers_ascend(run),
        first_font_has_replacement(run),
        run.chain_len > 0,
    ensures
        shape_run(run, 0, replacement_text(), ShapeMode::Replacement) is Glyphs,
{
    let glyphs = run.answers[run.query(0, replacement_text())]->Shaped_0;
    lemma_ascending_glyphs_resolve(run, 0, replacement_text(), glyphs);
    lemma_resolved_text_stays_with_its_font(
        run,
        0,
        replacement_text(),
        ShapeMode::Replacement,
        glyphs,
    );
}

/// A glyph that the font has, in an answer with ascending clusters, is
/// handed on.
proof fn lemma_ascending_glyph_is_handed_on(
    run: Run,
    font_idx: usize,
    text: Seq<char>,
    mode: ShapeMode,
    glyphs: Seq<RawGlyph>,
    i: int,
)
    requires
        answers_ascend(run),
        font_idx < run.chain_len,
        run.answers.contains_key(run.query(font_idx, text)),
        run.answers[run.query(font_idx, text)] == Reply::Shaped(glyphs),
        0 <= i < glyphs.len(),
    ensures
        emit(run, font_idx, text, mode, glyphs, i) is Glyphs,
{
    lemma_answer_at(run, font_idx, text, glyphs, i);
    lemma_answer_at(run, font_idx, text, glyphs, i + 1);
}

proof fn lemma_total_shape(run: Run, font_idx: usize, text: Seq<char>)
    requires
        answers_ascend(run),
        engine_answers_all(run),
        first_font_has_replacement(run),
        font_idx < run.chain_len,
    ensures
        shape_run(run, font_idx, text, ShapeMode::Normal) is Glyphs,
    decreases run.chain_len - font_idx, 3nat, 0nat,
{
    if text.len() > 0 {
        let query = run.query(font_idx, text);
        assert(run.answers.contains_key(query) && run.answers[query] is Shaped);
        let glyphs = run.answers[query]->Shaped_0;
        lemma_total_scan(run, font_idx, text, glyphs, 0, None, Seq::empty());
    }
}

proof fn lemma_total_scan(
    run: Run,
    font_idx: usize,
    text: Seq<char>,
    glyphs: Seq<RawGlyph>,
    i: int,
    pending: Option<int>,
    done: Seq<GlyphInfoView>,
)
    requires
        answers_ascend(run),
        engine_answers_all(run),
        first_font_has_replacement(run),
        font_idx < run.chain_len,
        run.answers.contains_key(run.query(font_idx, text)),
        run.answers[run.query(font_idx, text)] == Reply::Shaped(glyphs),
        0 <= i <= glyphs.len(),
        pending matches Some(start) ==> on_boundary(text, start) && 0 <= start < cluster_at(
            glyphs,
            encode_utf8(text).len() as int,
            i,
        ) && !(font_idx == 0 && text == replacement_text()),
    ensures
        scan(run, font_idx, text, ShapeMode::Normal, glyphs, i, pending, done) is Glyphs,
    decreases run.chain_len - font_idx, 2nat, glyphs.len() - i,
{
    let mode = ShapeMode::Normal;
    let len = encode_utf8(text).len() as int;
    lemma_answer_at(run, font_idx, text, glyphs, i);
    if i >= glyphs.len() {
        match pending {
            None => {},
            Some(start) => {
                lemma_total_flush(run, font_idx, text, start, len);
            },
        }
    } else if glyphs[i].codepoint == 0 {
        let opened = if pending is None {
            Some(glyphs[i].cluster as int)
        } else {
            pending
        };
        lemma_total_scan(run, font_idx, text, glyphs, i + 1, opened, done);
    } else {
        let pos = glyphs[i].cluster as int;
        let closed = match pending {
            None => Outcome::Glyphs(Seq::empty()),
            Some(start) => flush(run, font_idx, text, mode, start, pos),
        };
        match pending {
            None => {},
            Some(start) => {
                lemma_total_flush(run, font_idx, text, start, pos);
            },
        }
        let own = emit(run, font_idx, text, mode, glyphs, i);
        lemma_ascending_glyph_is_handed_on(run, font_idx, text, mode, glyphs, i);
        lemma_total_scan(
            run,
            font_idx,
            text,
            glyphs,
            i + 1,
            None,
            done + closed->Glyphs_0 + own->Glyphs_0,
        );
    }
}

proof fn lemma_total_flush(run: Run, font_idx: usize, text: Seq<char>, start: int, end: int)
    requires
        answers_ascend(run),
        engine_answers_all(run),
        first_font_has_replacement(run),
        font_idx < run.chain_len,
        0 <= start < end <= encode_utf8(text).len(),
        on_boundary(text, start),
        on_boundary(text, end),
        !(font_idx == 0 && text == replacement_text()),
    ensures
        flush(run, font_idx, text, ShapeMode::Normal, start, end) is Glyphs,
    decreases run.chain_len - font_idx, 1nat, 0nat,
{
    let piece = sub_text(text, start, end);
    assert(span_on_boundaries(text, start, end));
    lemma_piece_bytes(text, start, end);
    lemma_empty_text_has_no_bytes(piece);
    if font_idx + 1 < run.chain_len {
        lemma_total_shape(run, (font_idx + 1) as usize, piece);
    } else {
        lemma_past_chain(run, (font_idx + 1) as usize, piece, ShapeMode::Normal);
        lemma_stand_in_is_had(run);
    }
}

/// A stretch of the text that the fonts after the current one fail to
/// shape gets the glyphs of the replacement, as the chain shapes it from
/// the first font on, moved up to where the stretch starts.
pub proof fn lemma_unresolved_stretch_is_replaced(
    run: Run,
    font_idx: usize,
    text: Seq<char>,
    start: int,
    end: int,
    stand_in: Seq<GlyphInfoView>,
)
    requires
        font_idx < run.chain_len,
        span_on_boundaries(text, start, end),
        shape_run(run, (font_idx + 1) as usize, sub_text(text, start, end), ShapeMode::Normal)
            is Failed,
        !(font_idx == 0 && text == replacement_text()),
        shape_run(run, 0, replacement_text(), ShapeMode::Replacement) == Outcome::Glyphs(stand_in),
    ensures
        flush(run, font_idx, text, ShapeMode::Normal, start, end) == Outcome::Glyphs(
            shifted(stand_in, start),
        ),
{
}

/// Shaping fails only past the chain. Where the engine answers every
/// request with glyphs at ascending clusters between characters, and the
/// first font has the replacement, shaping a text from a font of the
/// chain yields glyphs and asks for nothing more: what no font resolves is
/// replaced, never an error. Past the chain, a text that is not empty is
/// an error, and an empty one has no glyphs.
pub proof fn lemma_shaping_fails_only_past_the_chain(run: Run, font_idx: usize, text: Seq<char>)
    requires
        answers_ascend(run),
        engine_answers_all(run),
        first_font_has_replacement(run),
    ensures
        shape_run(run, font_idx, text, ShapeMode::Normal) is Failed <==> font_idx >= run.chain_len
            && text.len() > 0,
        !(shape_run(run, font_idx, text, ShapeMode::Normal) is Ask),
{
    if font_idx < run.chain_len {
        lemma_total_shape(run, font_idx, text);
    }
}

} // verus!
