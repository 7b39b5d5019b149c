//! The cluster offsets of the glyphs that shaping hands on split the text
//! into consecutive spans, also where a replacement stands in.
//!
//! The span of a glyph runs from its cluster offset to that of the next
//! glyph, and the span of the last glyph to the end of the text. A
//! replacement takes the place of the whole stretch that no font could
//! shape, so its span is that stretch.

use crate::clusters::cluster_at;
use crate::engine::Reply;
use crate::glyph::{GlyphInfoView, RawGlyph};
use crate::model::{
    emit, flush, on_boundary, replacement_text, scan, shape_run, shifted, span_on_boundaries,
    sub_text, substitute, Outcome, Run, ShapeMode,
};
use crate::partition::{answers_ascend, closed_before, lemma_answer_at};
use crate::text::{lemma_boundary_in_piece, lemma_piece_bytes, lemma_replacement_is_one_byte};
use vstd::prelude::*;
use vstd::utf8::*;

verus! {

/// The cluster offsets of the glyphs split the bytes of `text` from `from`
/// up to `to`: the first is `from`, each is less than the next, all lie
/// below `to`, and each lies between two characters of the text. Without
/// glyphs there is nothing to split.
pub open spec fn clusters_split(
    text: Seq<char>,
    glyphs: Seq<GlyphInfoView>,
    from: int,
    to: int,
) -> bool {
    if glyphs.len() == 0 {
        from == to
    } else {
        &&& glyphs[0].cluster == from
        &&& forall|j: int|
            0 <= j < glyphs.len() - 1 ==> (#[trigger] glyphs[j]).cluster < glyphs[j + 1].cluster
        &&& forall|j: int|
            0 <= j < glyphs.len() ==> from <= (#[trigger] glyphs[j]).cluster < to && on_boundary(
                text,
                glyphs[j].cluster as int,
            )
    }
}

/// What the scan has settled when it stands before byte `next`: glyphs
/// that split the text up to `next`, or, inside a stretch that the font
/// lacks, up to the start of that stretch, which lies between characters
/// and before `next`.
pub open spec fn split_up_to(
    text: Seq<char>,
    done: Seq<GlyphInfoView>,
    pending: Option<int>,
    next: int,
) -> bool {
    match pending {
        None => clusters_split(text, done, 0, next),
        Some(start) => {
            &&& clusters_split(text, done, 0, start)
            &&& on_boundary(text, start)
            &&& 0 <= start < next
        },
    }
}

proof fn lemma_split_concat(
    text: Seq<char>,
    a: Seq<GlyphInfoView>,
    b: Seq<GlyphInfoView>,
    from: int,
    mid: int,
    to: int,
)
    requires
        clusters_split(text, a, from, mid),
        clusters_split(text, b, mid, to),
        from <= mid <= to,
    ensures
        clusters_split(text, a + b, from, to),
{
    let both = a + b;
    if a.len() == 0 {
        assert(both =~= b);
    } else if b.len() == 0 {
        assert(both =~= a);
    } else {
        assert(both[0] == a[0]);
        assert forall|j: int| 0 <= j < both.len() - 1 implies (#[trigger] both[j]).cluster
            < both[j + 1].cluster by {
            if j < a.len() - 1 {
                assert(both[j] == a[j]);
                assert(both[j + 1] == a[j + 1]);
            } else if j == a.len() - 1 {
                assert(both[j] == a[j]);
                assert(both[j + 1] == b[0]);
            } else {
                assert(both[j] == b[j - a.len()]);
                assert(both[j + 1] == b[j + 1 - a.len()]);
            }
        }
        assert forall|j: int| 0 <= j < both.len() implies from <= (#[trigger] both[j]).cluster < to
            && on_boundary(text, both[j].cluster as int) by {
            if j < a.len() {
                assert(both[j] == a[j]);
            } else {
                assert(both[j] == b[j - a.len()]);
            }
        }
    }
}

/// Glyphs that split a piece of the text split, moved up to where the
/// piece starts, that stretch of the text.
proof fn lemma_split_shifted(text: Seq<char>, glyphs: Seq<GlyphInfoView>, start: int, end: int)
    requires
        span_on_boundaries(text, start, end),
        0 <= start,
        end <= u32::MAX,
        clusters_split(sub_text(text, start, end), glyphs, 0, end - start),
    ensures
        clusters_split(text, shifted(glyphs, start), start, end),
{
    let moved = shifted(glyphs, start);
    assert(moved.len() == glyphs.len());
    assert forall|j: int| 0 <= j < glyphs.len() implies (#[trigger] moved[j]).cluster
        == glyphs[j].cluster + start && on_boundary(text, moved[j].cluster as int) by {
        assert(0 <= glyphs[j].cluster < end - start);
        lemma_boundary_in_piece(text, start, end, glyphs[j].cluster as int);
    }
    if glyphs.len() > 0 {
        assert forall|j: int| 0 <= j < moved.len() - 1 implies (#[trigger] moved[j]).cluster
            < moved[j + 1].cluster by {
            assert(glyphs[j].cluster < glyphs[j + 1].cluster);
        }
        assert forall|j: int| 0 <= j < moved.len() implies start <= (#[trigger] moved[j]).cluster
            < end && on_boundary(text, moved[j].cluster as int) by {
            assert(0 <= glyphs[j].cluster < end - start);
        }
    }
}

/// Glyphs that split a text of one byte are one glyph at its start.
proof fn lemma_split_of_one_byte(text: Seq<char>, glyphs: Seq<GlyphInfoView>)
    requires
        clusters_split(text, glyphs, 0, 1),
    ensures
        glyphs.len() == 1,
        glyphs[0].cluster == 0,
{
    if glyphs.len() > 1 {
        assert(glyphs[0].cluster < glyphs[1].cluster);
        assert(glyphs[1].cluster < 1);
    }
}

proof fn lemma_split_shape(run: Run, font_idx: usize, text: Seq<char>, mode: ShapeMode)
    requires
        answers_ascend(run),
        encode_utf8(text).len() <= u32::MAX,
    ensures
        shape_run(run, font_idx, text, mode) matches Outcome::Glyphs(glyphs) ==> clusters_split(
            text,
            glyphs,
            0,
            encode_utf8(text).len() as int,
        ),
    decreases mode.rank(), run.chain_len - font_idx, 3nat, 0nat,
{
    if text.len() == 0 {
        assert(encode_utf8(text).len() == 0);
    } else if font_idx < run.chain_len && run.answers.contains_key(run.query(font_idx, text)) {
        match run.answers[run.query(font_idx, text)] {
            Reply::Failed(_) => {},
            Reply::Shaped(glyphs) => {
                lemma_answer_at(run, font_idx, text, glyphs, 0);
                lemma_split_scan(run, font_idx, text, mode, glyphs, 0, None, Seq::empty());
            },
        }
    }
}

/// A glyph that the font has, in an answer with ascending clusters, is
/// handed on as it is, and splits off its own span.
proof fn lemma_split_emit(
    run: Run,
    font_idx: usize,
    text: Seq<char>,
    mode: ShapeMode,
    glyphs: Seq<RawGlyph>,
    i: int,
)
    requires
        answers_ascend(run),
        font_idx < run.chain_len,
        run.answers.contains_key(run.query(font_idx, text)),
        run.answers[run.query(font_idx, text)] == Reply::Shaped(glyphs),
        0 <= i < glyphs.len(),
    ensures
        emit(run, font_idx, text, mode, glyphs, i) matches Outcome::Glyphs(own) && clusters_split(
            text,
            own,
            glyphs[i].cluster as int,
            cluster_at(glyphs, encode_utf8(text).len() as int, i + 1),
        ),
{
    lemma_answer_at(run, font_idx, text, glyphs, i);
    lemma_answer_at(run, font_idx, text, glyphs, i + 1);
    let own = emit(run, font_idx, text, mode, glyphs, i);
    assert(own is Glyphs);
    assert(own->Glyphs_0.len() == 1);
    assert(own->Glyphs_0[0].cluster == glyphs[i].cluster);
}

/// Closing the stretch before a glyph that the font has: what is settled
/// then reaches up to that glyph.
proof fn lemma_split_closed(
    run: Run,
    font_idx: usize,
    text: Seq<char>,
    mode: ShapeMode,
    glyphs: Seq<RawGlyph>,
    i: int,
    pending: Option<int>,
    done: Seq<GlyphInfoView>,
) -> (upto: Seq<GlyphInfoView>)
    requires
        answers_ascend(run),
        encode_utf8(text).len() <= u32::MAX,
        font_idx < run.chain_len,
        run.answers.contains_key(run.query(font_idx, text)),
        run.answers[run.query(font_idx, text)] == Reply::Shaped(glyphs),
        0 <= i < glyphs.len(),
        split_up_to(text, done, pending, glyphs[i].cluster as int),
    ensures
        closed_before(run, font_idx, text, mode, pending, glyphs[i].cluster as int)
            matches Outcome::Glyphs(stretch) ==> upto == done + stretch && clusters_split(
            text,
            upto,
            0,
            glyphs[i].cluster as int,
        ),
    decreases mode.rank(), run.chain_len - font_idx, 1nat, 1nat,
{
    let pos = glyphs[i].cluster as int;
    lemma_answer_at(run, font_idx, text, glyphs, i);
    match pending {
        None => {
            assert(done + Seq::<GlyphInfoView>::empty() =~= done);
            done
        },
        Some(start) => {
            lemma_split_flush(run, font_idx, text, mode, start, pos);
            let closed = flush(run, font_idx, text, mode, start, pos);
            if closed is Glyphs {
                lemma_split_concat(text, done, closed->Glyphs_0, 0, start, pos);
                done + closed->Glyphs_0
            } else {
                done
            }
        },
    }
}

proof fn lemma_split_scan(
    run: Run,
    font_idx: usize,
    text: Seq<char>,
    mode: ShapeMode,
    glyphs: Seq<RawGlyph>,
    i: int,
    pending: Option<int>,
    done: Seq<GlyphInfoView>,
)
    requires
        answers_ascend(run),
        encode_utf8(text).len() <= u32::MAX,
        font_idx < run.chain_len,
        run.answers.contains_key(run.query(font_idx, text)),
        run.answers[run.query(font_idx, text)] == Reply::Shaped(glyphs),
        0 <= i <= glyphs.len(),
        split_up_to(text, done, pending, cluster_at(glyphs, encode_utf8(text).len() as int, i)),
    ensures
        scan(run, font_idx, text, mode, glyphs, i, pending, done) matches Outcome::Glyphs(all)
            ==> clusters_split(text, all, 0, encode_utf8(text).len() as int),
    decreases mode.rank(), run.chain_len - font_idx, 2nat, glyphs.len() - i,
{
    let len = encode_utf8(text).len() as int;
    lemma_answer_at(run, font_idx, text, glyphs, i);
    if i >= glyphs.len() {
        match pending {
            None => {},
            Some(start) => {
                lemma_split_flush(run, font_idx, text, mode, start, len);
                let closed = flush(run, font_idx, text, mode, start, len);
                if closed is Glyphs {
                    lemma_split_concat(text, done, closed->Glyphs_0, 0, start, len);
                }
            },
        }
    } else if glyphs[i].codepoint == 0 {
        let opened = if pending is None {
            Some(glyphs[i].cluster as int)
        } else {
            pending
        };
        lemma_split_scan(run, font_idx, text, mode, glyphs, i + 1, opened, done);
    } else {
        let pos = glyphs[i].cluster as int;
        let next = cluster_at(glyphs, len, i + 1);
        let upto = lemma_split_closed(run, font_idx, text, mode, glyphs, i, pending, done);
        let closed = closed_before(run, font_idx, text, mode, pending, pos);
        if closed is Glyphs {
            lemma_split_emit(run, font_idx, text, mode, glyphs, i);
            let own = emit(run, font_idx, text, mode, glyphs, i);
            lemma_split_concat(text, upto, own->Glyphs_0, 0, pos, next);
            lemma_split_scan(
                run,
                font_idx,
                text,
                mode,
                glyphs,
                i + 1,
                None,
                upto + own->Glyphs_0,
            );
        }
    }
}

proof fn lemma_split_flush(
    run: Run,
    font_idx: usize,
    text: Seq<char>,
    mode: ShapeMode,
    start: int,
    end: int,
)
    requires
        answers_ascend(run),
        encode_utf8(text).len() <= u32::MAX,
        font_idx < run.chain_len,
        0 <= start < end <= encode_utf8(text).len(),
        on_boundary(text, start),
        on_boundary(text, end),
    ensures
        flush(run, font_idx, text, mode, start, end) matches Outcome::Glyphs(stretch)
            ==> clusters_split(text, stretch, start, end),
    decreases mode.rank(), run.chain_len - font_idx, 1nat, 0nat,
{
    assert(span_on_boundaries(text, start, end));
    lemma_piece_bytes(text, start, end);
    let piece = sub_text(text, start, end);
    assert(encode_utf8(piece).len() == end - start);
    lemma_split_shape(run, (font_idx + 1) as usize, piece, mode);
    match shape_run(run, (font_idx + 1) as usize, piece, mode) {
        Outcome::Glyphs(glyphs) => {
            lemma_split_shifted(text, glyphs, start, end);
        },
        Outcome::Failed(_) => {
            lemma_split_substitute(run, font_idx, text, mode, start, end);
        },
        Outcome::Ask(_) => {},
    }
}

/// A replacement that stands in for a stretch is one glyph at its start.
proof fn lemma_split_substitute(
    run: Run,
    font_idx: usize,
    text: Seq<char>,
    mode: ShapeMode,
    by: int,
    end: int,
)
    requires
        answers_ascend(run),
        font_idx < run.chain_len,
        0 <= by < end <= u32::MAX,
        on_boundary(text, by),
    ensures
        substitute(run, font_idx, text, mode, by) matches Outcome::Glyphs(stand_in)
            ==> clusters_split(text, stand_in, by, end),
    decreases mode.rank(), run.chain_len - font_idx, 0nat, 0nat,
{
    if mode == ShapeMode::Normal {
        lemma_replacement_is_one_byte();
        lemma_split_shape(run, 0, replacement_text(), ShapeMode::Replacement);
        match shape_run(run, 0, replacement_text(), ShapeMode::Replacement) {
            Outcome::Glyphs(glyphs) => {
                lemma_split_of_one_byte(replacement_text(), glyphs);
                let moved = shifted(glyphs, by);
                assert(moved.len() == 1);
                assert(moved[0].cluster == by);
            },
            _ => {},
        }
    }
}

/// The partition of the text by cluster offsets. Where every answer of the
/// engine has ascending clusters that lie between characters, the glyphs
/// that shaping hands on, in either mode and with or without a replacement
/// among them, start at byte 0 and ascend strictly, each at an offset
/// inside the text and between two of its characters. So the spans from
/// each glyph to the next, the last up to the end of the text, cover the
/// text without gap or overlap.
pub proof fn lemma_glyph_clusters_partition_text(
    run: Run,
    font_idx: usize,
    text: Seq<char>,
    mode: ShapeMode,
    glyphs: Seq<GlyphInfoView>,
)
    requires
        answers_ascend(run),
        encode_utf8(text).len() <= u32::MAX,
        shape_run(run, font_idx, text, mode) == Outcome::Glyphs(glyphs),
    ensures
        clusters_split(text, glyphs, 0, encode_utf8(text).len() as int),
{
    lemma_split_shape(run, font_idx, text, mode);
}

} // verus!
