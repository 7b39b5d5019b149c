//! Shaping step by step reaches what shaping with all answers at hand
//! yields.
//!
//! The host asks the shaper again each time it has recorded an answer. Each
//! request is for an answer that is still missing, and an outcome that was
//! reached with some answers stays the same when more are recorded.

use crate::engine::Reply;
use crate::glyph::{GlyphInfoView, RawGlyph};
use crate::model::{
    emit, flush, replacement_text, scan, shape_run, span_on_boundaries, sub_text, substitute,
    Outcome, Run, ShapeMode,
};
use vstd::prelude::*;
use vstd::utf8::*;

verus! {

/// The run `more` has every answer of the run `less`, and the two agree on
/// the chain and on the size and density asked for.
pub open spec fn extends(more: Run, less: Run) -> bool {
    &&& less.answers.submap_of(more.answers)
    &&& less.chain_len == more.chain_len
    &&& less.font_size == more.font_size
    &&& less.dpi == more.dpi
}

/// The outcome with fewer answers is a request, or it is the outcome with
/// more answers.
pub open spec fn settled_alike(less: Outcome, more: Outcome) -> bool {
    less is Ask || less == more
}

/// A request is for a font of the chain, at the size and density of the
/// run, for a text that is not empty, and for an answer that the run does
/// not hold.
pub open spec fn asks_anew(run: Run, outcome: Outcome) -> bool {
    outcome matches Outcome::Ask(query) ==> {
        &&& !run.answers.contains_key(query)
        &&& query.font_idx < run.chain_len
        &&& query.font_size == run.font_size
        &&& query.dpi == run.dpi
        &&& query.text.len() > 0
    }
}

proof fn lemma_extend_shape(
    less: Run,
    more: Run,
    font_idx: usize,
    text: Seq<char>,
    mode: ShapeMode,
)
    requires
        extends(more, less),
    ensures
        settled_alike(
            shape_run(less, font_idx, text, mode),
            shape_run(more, font_idx, text, mode),
        ),
        asks_anew(less, shape_run(less, font_idx, text, mode)),
    decreases mode.rank(), less.chain_len - font_idx, 3nat, 0nat,
{
    let query = less.query(font_idx, text);
    assert(query == more.query(font_idx, text));
    if text.len() > 0 && font_idx < less.chain_len && less.answers.contains_key(query) {
        assert(more.answers.contains_key(query) && more.answers[query] == less.answers[query]);
        match less.answers[query] {
            Reply::Failed(_) => {},
            Reply::Shaped(glyphs) => {
                lemma_extend_scan(less, more, font_idx, text, mode, glyphs, 0, None, Seq::empty());
            },
        }
    }
}

proof fn lemma_extend_scan(
    less: Run,
    more: Run,
    font_idx: usize,
    text: Seq<char>,
    mode: ShapeMode,
    glyphs: Seq<RawGlyph>,
    i: int,
    pending: Option<int>,
    done: Seq<GlyphInfoView>,
)
    requires
        extends(more, less),
        font_idx < less.chain_len,
        0 <= i,
    ensures
        settled_alike(
            scan(less, font_idx, text, mode, glyphs, i, pending, done),
            scan(more, font_idx, text, mode, glyphs, i, pending, done),
        ),
        asks_anew(less, scan(less, font_idx, text, mode, glyphs, i, pending, done)),
    decreases mode.rank(), less.chain_len - font_idx, 2nat, glyphs.len() - i,
{
    let len = encode_utf8(text).len() as int;
    if i >= glyphs.len() {
        match pending {
            None => {},
            Some(start) => {
                lemma_extend_flush(less, more, font_idx, text, mode, start, len);
            },
        }
    } else if glyphs[i].codepoint == 0 {
        let opened = if pending is None {
            Some(glyphs[i].cluster as int)
        } else {
            pending
        };
        lemma_extend_scan(less, more, font_idx, text, mode, glyphs, i + 1, opened, done);
    } else {
        let pos = glyphs[i].cluster as int;
        let closed = match pending {
            None => Outcome::Glyphs(Seq::empty()),
            Some(start) => flush(less, font_idx, text, mode, start, pos),
        };
        match pending {
            None => {},
            Some(start) => {
                lemma_extend_flush(less, more, font_idx, text, mode, start, pos);
            },
        }
        if closed is Glyphs {
            lemma_extend_emit(less, more, font_idx, text, mode, glyphs, i);
            let own = emit(less, font_idx, text, mode, glyphs, i);
            if own is Glyphs {
                lemma_extend_scan(
                    less,
                    more,
                    font_idx,
                    text,
                    mode,
                    glyphs,
                    i + 1,
                    None,
                    done + closed->Glyphs_0 + own->Glyphs_0,
                );
            }
        }
    }
}

proof fn lemma_extend_flush(
    less: Run,
    more: Run,
    font_idx: usize,
    text: Seq<char>,
    mode: ShapeMode,
    start: int,
    end: int,
)
    requires
        extends(more, less),
        font_idx < less.chain_len,
    ensures
        settled_alike(
            flush(less, font_idx, text, mode, start, end),
            flush(more, font_idx, text, mode, start, end),
        ),
        asks_anew(less, flush(less, font_idx, text, mode, start, end)),
    decreases mode.rank(), less.chain_len - font_idx, 1nat, 0nat,
{
    if !span_on_boundaries(text, start, end) {
        lemma_extend_substitute(less, more, font_idx, text, mode, 0);
    } else {
        let piece = sub_text(text, start, end);
        lemma_extend_shape(less, more, (font_idx + 1) as usize, piece, mode);
        if shape_run(less, (font_idx + 1) as usize, piece, mode) is Failed {
            lemma_extend_substitute(less, more, font_idx, text, mode, start);
        }
    }
}

proof fn lemma_extend_emit(
    less: Run,
    more: Run,
    font_idx: usize,
    text: Seq<char>,
    mode: ShapeMode,
    glyphs: Seq<RawGlyph>,
    i: int,
)
    requires
        extends(more, less),
        font_idx < less.chain_len,
    ensures
        settled_alike(
            emit(less, font_idx, text, mode, glyphs, i),
            emit(more, font_idx, text, mode, glyphs, i),
        ),
        asks_anew(less, emit(less, font_idx, text, mode, glyphs, i)),
    decreases mode.rank(), less.chain_len - font_idx, 1nat, 0nat,
{
    lemma_extend_substitute(less, more, font_idx, text, mode, 0);
}

proof fn lemma_extend_substitute(
    less: Run,
    more: Run,
    font_idx: usize,
    text: Seq<char>,
    mode: ShapeMode,
    by: int,
)
    requires
        extends(more, less),
        font_idx < less.chain_len,
    ensures
        settled_alike(
            substitute(less, font_idx, text, mode, by),
            substitute(more, font_idx, text, mode, by),
        ),
        asks_anew(less, substitute(less, font_idx, text, mode, by)),
    decreases mode.rank(), less.chain_len - font_idx, 0nat, 0nat,
{
    if mode == ShapeMode::Normal {
        lemma_extend_shape(less, more, 0, replacement_text(), ShapeMode::Replacement);
    }
}

/// An outcome with glyphs or with an error stays as it is when the engine
/// answers more: shaping step by step, with the answers recorded so far,
/// ends in what shaping yields with every answer at hand.
pub proof fn lemma_more_answers_keep_the_outcome(
    less: Run,
    more: Run,
    font_idx: usize,
    text: Seq<char>,
    mode: ShapeMode,
)
    requires
        extends(more, less),
    ensures
        shape_run(less, font_idx, text, mode) is Ask || shape_run(less, font_idx, text, mode)
            == shape_run(more, font_idx, text, mode),
{
    lemma_extend_shape(less, more, font_idx, text, mode);
}

/// Shaping asks only for what it does not have: a request names a font of
/// the chain, the size and density of the run, and a text that is not empty
/// and has no answer yet. So each answer that the host records is a new
/// one.
pub proof fn lemma_requests_are_new(run: Run, font_idx: usize, text: Seq<char>, mode: ShapeMode)
    ensures
        asks_anew(run, shape_run(run, font_idx, text, mode)),
{
    lemma_extend_shape(run, run, font_idx, text, mode);
}

} // verus!
