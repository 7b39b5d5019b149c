//! The spans of the glyphs that shaping hands on partition the text, as
//! long as the engine reports ascending clusters and no replacement has to
//! stand in.

use crate::clusters::{cluster_at, cluster_size, clusters_ascend, lemma_spans_partition_text};
use crate::engine::{Query, Reply};
use crate::glyph::{GlyphInfoView, RawGlyph};
use crate::model::{
    emit, flush, on_boundary, scan, shape_run, shifted, span_on_boundaries, sub_text, substitute,
    Outcome, Run, ShapeMode,
};
use crate::text::{
    lemma_boundary_in_piece, lemma_piece_bytes, lemma_piece_of_piece, lemma_pieces_join,
    lemma_whole_text_is_a_piece,
};
use vstd::prelude::*;
use vstd::utf8::*;

verus! {

/// The byte offset just past the text of a glyph.
pub open spec fn span_end(glyph: GlyphInfoView) -> int {
    glyph.cluster + encode_utf8(glyph.text).len()
}

/// Glyph and text agree: the span of the glyph, from its cluster offset
/// over as many bytes as its own text has, is cut between characters of
/// `text`, and the glyph's text is what `text` holds there.
pub open spec fn holds_its_span(text: Seq<char>, glyph: GlyphInfoView) -> bool {
    &&& span_on_boundaries(text, glyph.cluster as int, span_end(glyph))
    &&& glyph.text == sub_text(text, glyph.cluster as int, span_end(glyph))
}

/// The spans of the glyphs, each from its cluster offset over the bytes of
/// its text, lie end to end from byte `from` up to byte `to` of `text`:
/// the first starts at `from`, each next one where the one before ends, and
/// the last ends at `to`; and each glyph holds the text of its span.
/// Without glyphs nothing is covered.
pub open spec fn spans_cover(
    text: Seq<char>,
    glyphs: Seq<GlyphInfoView>,
    from: int,
    to: int,
) -> bool {
    if glyphs.len() == 0 {
        from == to
    } else {
        &&& glyphs[0].cluster == from
        &&& span_end(glyphs.last()) == to
        &&& forall|j: int|
            0 <= j < glyphs.len() - 1 ==> span_end(#[trigger] glyphs[j]) == glyphs[j + 1].cluster
        &&& forall|j: int|
            0 <= j < glyphs.len() ==> from <= (#[trigger] glyphs[j]).cluster && span_end(glyphs[j])
                <= to && holds_its_span(text, glyphs[j])
    }
}

/// The texts of the glyphs, one after the other.
pub open spec fn joined_text(glyphs: Seq<GlyphInfoView>) -> Seq<char>
    decreases glyphs.len(),
{
    if glyphs.len() == 0 {
        Seq::empty()
    } else {
        joined_text(glyphs.drop_last()) + glyphs.last().text
    }
}

/// Every answer of the engine has clusters that start at 0, ascend
/// strictly, stay inside the text that was asked for, and lie between its
/// characters.
pub open spec fn answers_ascend(run: Run) -> bool {
    forall|query: Query| #[trigger]
        run.answers.contains_key(query) ==> (run.answers[query] matches Reply::Shaped(glyphs)
            ==> {
            &&& clusters_ascend(glyphs, encode_utf8(query.text).len() as int)
            &&& forall|i: int|
                0 <= i < glyphs.len() ==> on_boundary(
                    query.text,
                    (#[trigger] glyphs[i]).cluster as int,
                )
        })
}

/// What the scan has settled when it stands before byte `next`: glyphs that
/// cover the text up to `next`, or, inside a stretch that the font lacks,
/// up to the start of that stretch, which lies between characters and not
/// after `next`.
pub open spec fn settled_up_to(
    text: Seq<char>,
    done: Seq<GlyphInfoView>,
    pending: Option<int>,
    next: int,
) -> bool {
    match pending {
        None => spans_cover(text, done, 0, next),
        Some(start) => {
            &&& spans_cover(text, done, 0, start)
            &&& on_boundary(text, start)
            &&& 0 <= start <= next
        },
    }
}

/// The outcome of closing the open stretch, if there is one, at byte `end`.
pub open spec fn closed_before(
    run: Run,
    font_idx: usize,
    text: Seq<char>,
    mode: ShapeMode,
    pending: Option<int>,
    end: int,
) -> Outcome
    recommends
        font_idx < run.chain_len,
{
    match pending {
        None => Outcome::Glyphs(Seq::empty()),
        Some(start) => flush(run, font_idx, text, mode, start, end),
    }
}

proof fn lemma_cover_concat(
    text: Seq<char>,
    a: Seq<GlyphInfoView>,
    b: Seq<GlyphInfoView>,
    from: int,
    mid: int,
    to: int,
)
    requires
        spans_cover(text, a, from, mid),
        spans_cover(text, b, mid, to),
        from <= mid <= to,
    ensures
        spans_cover(text, a + b, from, to),
{
    let both = a + b;
    if a.len() == 0 {
        assert(both =~= b);
    } else if b.len() == 0 {
        assert(both =~= a);
    } else {
        assert(both[0] == a[0]);
        assert(both.last() == b.last());
        assert forall|j: int| 0 <= j < both.len() - 1 implies span_end(#[trigger] both[j])
            == both[j + 1].cluster by {
            if j < a.len() - 1 {
                assert(both[j] == a[j]);
                assert(both[j + 1] == a[j + 1]);
            } else if j == a.len() - 1 {
                assert(both[j] == a.last());
                assert(both[j + 1] == b[0]);
            } else {
                assert(both[j] == b[j - a.len()]);
                assert(both[j + 1] == b[j + 1 - a.len()]);
            }
        }
        assert forall|j: int| 0 <= j < both.len() implies from <= (#[trigger] both[j]).cluster
            && span_end(both[j]) <= to && holds_its_span(text, both[j]) by {
            if j < a.len() {
                assert(both[j] == a[j]);
            } else {
                assert(both[j] == b[j - a.len()]);
            }
        }
    }
}

proof fn lemma_cover_shifted(text: Seq<char>, glyphs: Seq<GlyphInfoView>, start: int, end: int)
    requires
        span_on_boundaries(text, start, end),
        spans_cover(sub_text(text, start, end), glyphs, 0, end - start),
        0 <= start,
        end <= u32::MAX,
    ensures
        spans_cover(text, shifted(glyphs, start), start, end),
{
    let piece = sub_text(text, start, end);
    let moved = shifted(glyphs, start);
    assert(moved.len() == glyphs.len());
    assert forall|j: int| 0 <= j < glyphs.len() implies (#[trigger] moved[j]).cluster
        == glyphs[j].cluster + start && moved[j].text == glyphs[j].text && holds_its_span(
        text,
        moved[j],
    ) by {
        let from = glyphs[j].cluster as int;
        let to = span_end(glyphs[j]);
        assert(0 <= from && to <= end - start && holds_its_span(piece, glyphs[j]));
        lemma_boundary_in_piece(text, start, end, from);
        lemma_boundary_in_piece(text, start, end, to);
        lemma_piece_of_piece(text, start, end, from, to);
    }
    if glyphs.len() > 0 {
        assert(moved.last() == moved[glyphs.len() - 1]);
        assert forall|j: int| 0 <= j < moved.len() - 1 implies span_end(#[trigger] moved[j])
            == moved[j + 1].cluster by {
            assert(span_end(glyphs[j]) == glyphs[j + 1].cluster);
        }
        assert forall|j: int| 0 <= j < moved.len() implies start <= (#[trigger] moved[j]).cluster
            && span_end(moved[j]) <= end && holds_its_span(text, moved[j]) by {
            assert(0 <= glyphs[j].cluster && span_end(glyphs[j]) <= end - start);
        }
    }
}

/// Along glyphs whose spans lie end to end, offsets do not descend.
proof fn lemma_cover_ascends(
    text: Seq<char>,
    glyphs: Seq<GlyphInfoView>,
    from: int,
    to: int,
    i: int,
    j: int,
)
    requires
        spans_cover(text, glyphs, from, to),
        0 <= i <= j < glyphs.len(),
    ensures
        glyphs[i].cluster <= glyphs[j].cluster,
        span_end(glyphs[i]) <= span_end(glyphs[j]),
    decreases j - i,
{
    if i < j {
        assert(span_end(glyphs[i]) == glyphs[i + 1].cluster);
        lemma_cover_ascends(text, glyphs, from, to, i + 1, j);
    }
}

/// The texts of glyphs whose spans lie end to end join to the text that
/// the spans cover.
proof fn lemma_cover_joins(text: Seq<char>, glyphs: Seq<GlyphInfoView>, from: int, to: int)
    requires
        spans_cover(text, glyphs, from, to),
        0 <= from <= to <= encode_utf8(text).len(),
    ensures
        joined_text(glyphs) == sub_text(text, from, to),
    decreases glyphs.len(),
{
    if glyphs.len() == 0 {
        assert(encode_utf8(text).subrange(from, to).len() == 0);
        assert(sub_text(text, from, to) =~= Seq::<char>::empty());
    } else {
        let n = glyphs.len() as int;
        let front = glyphs.drop_last();
        let last = glyphs.last();
        let mid = last.cluster as int;
        assert(holds_its_span(text, last));
        assert(holds_its_span(text, glyphs[0]));
        if n > 1 {
            assert(front[0] == glyphs[0]);
            assert(front.last() == glyphs[n - 2]);
            assert(span_end(glyphs[n - 2]) == glyphs[n - 1].cluster);
            assert forall|j: int| 0 <= j < front.len() - 1 implies span_end(#[trigger] front[j])
                == front[j + 1].cluster by {
                assert(front[j] == glyphs[j]);
                assert(front[j + 1] == glyphs[j + 1]);
            }
            assert forall|j: int| 0 <= j < front.len() implies from <= (#[trigger] front[j]).cluster
                && span_end(front[j]) <= mid && holds_its_span(text, front[j]) by {
                assert(front[j] == glyphs[j]);
                lemma_cover_ascends(text, glyphs, from, to, j, n - 2);
            }
        }
        lemma_cover_ascends(text, glyphs, from, to, 0, n - 1);
        assert(spans_cover(text, front, from, mid));
        lemma_cover_joins(text, front, from, mid);
        lemma_pieces_join(text, from, mid, to);
    }
}

/// While the replacement is shaped, nothing turns to it once more.
proof fn lemma_no_stand_in(run: Run, font_idx: usize, text: Seq<char>, by: int)
    requires
        font_idx < run.chain_len,
    ensures
        !(substitute(run, font_idx, text, ShapeMode::Replacement, by) is Glyphs),
{
}

proof fn lemma_cover_shape(run: Run, font_idx: usize, text: Seq<char>, mode: ShapeMode)
    requires
        mode == ShapeMode::Replacement,
        answers_ascend(run),
        encode_utf8(text).len() <= u32::MAX,
    ensures
        shape_run(run, font_idx, text, mode) matches Outcome::Glyphs(glyphs) ==> spans_cover(
            text,
            glyphs,
            0,
            encode_utf8(text).len() as int,
        ),
    decreases mode.rank(), run.chain_len - font_idx, 3nat, 0nat,
{
    if text.len() == 0 {
        assert(encode_utf8(text).len() == 0);
    } else if font_idx < run.chain_len && run.answers.contains_key(run.query(font_idx, text)) {
        match run.answers[run.query(font_idx, text)] {
            Reply::Failed(_) => {},
            Reply::Shaped(glyphs) => {
                lemma_cover_scan(run, font_idx, text, mode, glyphs, 0, None, Seq::empty());
            },
        }
    }
}

/// What ascending clusters that lie between characters give at index `k`:
/// the cluster lies inside the text and between characters, and the span of
/// glyph `k` ends where the next glyph starts.
pub proof fn lemma_answer_at(run: Run, font_idx: usize, text: Seq<char>, glyphs: Seq<RawGlyph>, k: int)
    requires
        answers_ascend(run),
        run.answers.contains_key(run.query(font_idx, text)),
        run.answers[run.query(font_idx, text)] == Reply::Shaped(glyphs),
        0 <= k <= glyphs.len(),
    ensures
        0 <= cluster_at(glyphs, encode_utf8(text).len() as int, k) <= encode_utf8(text).len(),
        on_boundary(text, cluster_at(glyphs, encode_utf8(text).len() as int, k)),
        k < glyphs.len() ==> cluster_at(glyphs, encode_utf8(text).len() as int, k) + cluster_size(
            glyphs,
            encode_utf8(text).len() as int,
            k,
        ) == cluster_at(glyphs, encode_utf8(text).len() as int, k + 1),
        k < glyphs.len() ==> cluster_at(glyphs, encode_utf8(text).len() as int, k) < cluster_at(
            glyphs,
            encode_utf8(text).len() as int,
            k + 1,
        ),
{
    let len = encode_utf8(text).len() as int;
    let query = run.query(font_idx, text);
    assert(run.answers.contains_key(query));
    assert(clusters_ascend(glyphs, len));
    lemma_spans_partition_text(glyphs, len);
    lemma_clusters_stay_inside(glyphs, len, k);
    if k < glyphs.len() {
        assert(on_boundary(text, glyphs[k].cluster as int));
        assert(cluster_at(glyphs, len, k) < cluster_at(glyphs, len, k + 1));
    } else {
        encode_utf8_valid_utf8(text);
        is_char_boundary_start_end_of_seq(encode_utf8(text));
    }
}

/// A glyph that is handed on covers its own span.
proof fn lemma_cover_emit(
    run: Run,
    font_idx: usize,
    text: Seq<char>,
    mode: ShapeMode,
    glyphs: Seq<RawGlyph>,
    i: int,
)
    requires
        mode == ShapeMode::Replacement,
        font_idx < run.chain_len,
        0 <= i < glyphs.len(),
    ensures
        emit(run, font_idx, text, mode, glyphs, i) matches Outcome::Glyphs(own) ==> spans_cover(
            text,
            own,
            glyphs[i].cluster as int,
            glyphs[i].cluster + cluster_size(glyphs, encode_utf8(text).len() as int, i),
        ),
{
    let pos = glyphs[i].cluster as int;
    let next = pos + cluster_size(glyphs, encode_utf8(text).len() as int, i);
    lemma_no_stand_in(run, font_idx, text, 0);
    if on_boundary(text, pos) && on_boundary(text, next) {
        lemma_piece_bytes(text, pos, next);
    }
}

proof fn lemma_cover_scan(
    run: Run,
    font_idx: usize,
    text: Seq<char>,
    mode: ShapeMode,
    glyphs: Seq<RawGlyph>,
    i: int,
    pending: Option<int>,
    done: Seq<GlyphInfoView>,
)
    requires
        mode == ShapeMode::Replacement,
        answers_ascend(run),
        encode_utf8(text).len() <= u32::MAX,
        font_idx < run.chain_len,
        run.answers.contains_key(run.query(font_idx, text)),
        run.answers[run.query(font_idx, text)] == Reply::Shaped(glyphs),
        0 <= i <= glyphs.len(),
        settled_up_to(text, done, pending, cluster_at(glyphs, encode_utf8(text).len() as int, i)),
    ensures
        scan(run, font_idx, text, mode, glyphs, i, pending, done) matches Outcome::Glyphs(all)
            ==> spans_cover(text, all, 0, encode_utf8(text).len() as int),
    decreases mode.rank(), run.chain_len - font_idx, 2nat, glyphs.len() - i,
{
    let len = encode_utf8(text).len() as int;
    lemma_answer_at(run, font_idx, text, glyphs, i);
    if i >= glyphs.len() {
        match pending {
            None => {},
            Some(start) => {
                lemma_cover_flush(run, font_idx, text, mode, start, len);
                let closed = flush(run, font_idx, text, mode, start, len);
                if closed is Glyphs {
                    lemma_cover_concat(text, done, closed->Glyphs_0, 0, start, len);
                }
            },
        }
    } else if glyphs[i].codepoint == 0 {
        let opened = if pending is None {
            Some(glyphs[i].cluster as int)
        } else {
            pending
        };
        lemma_cover_scan(run, font_idx, text, mode, glyphs, i + 1, opened, done);
    } else {
        let pos = glyphs[i].cluster as int;
        let next = cluster_at(glyphs, len, i + 1);
        let upto = lemma_cover_closed(run, font_idx, text, mode, glyphs, i, pending, done);
        let closed = closed_before(run, font_idx, text, mode, pending, pos);
        if closed is Glyphs {
            let own = emit(run, font_idx, text, mode, glyphs, i);
            lemma_cover_emit(run, font_idx, text, mode, glyphs, i);
            if own is Glyphs {
                lemma_cover_concat(text, upto, own->Glyphs_0, 0, pos, next);
                lemma_cover_scan(
                    run,
                    font_idx,
                    text,
                    mode,
                    glyphs,
                    i + 1,
                    None,
                    upto + own->Glyphs_0,
                );
            }
        }
    }
}

/// Closing the stretch before a glyph that the font has: what is settled
/// then reaches up to that glyph.
proof fn lemma_cover_closed(
    run: Run,
    font_idx: usize,
    text: Seq<char>,
    mode: ShapeMode,
    glyphs: Seq<RawGlyph>,
    i: int,
    pending: Option<int>,
    done: Seq<GlyphInfoView>,
) -> (upto: Seq<GlyphInfoView>)
    requires
        mode == ShapeMode::Replacement,
        answers_ascend(run),
        encode_utf8(text).len() <= u32::MAX,
        font_idx < run.chain_len,
        run.answers.contains_key(run.query(font_idx, text)),
        run.answers[run.query(font_idx, text)] == Reply::Shaped(glyphs),
        0 <= i < glyphs.len(),
        settled_up_to(text, done, pending, glyphs[i].cluster as int),
    ensures
        closed_before(run, font_idx, text, mode, pending, glyphs[i].cluster as int)
            matches Outcome::Glyphs(stretch) ==> upto == done + stretch && spans_cover(
            text,
            upto,
            0,
            glyphs[i].cluster as int,
        ),
    decreases mode.rank(), run.chain_len - font_idx, 1nat, 1nat,
{
    let pos = glyphs[i].cluster as int;
    lemma_answer_at(run, font_idx, text, glyphs, i);
    match pending {
        None => {
            assert(done + Seq::<GlyphInfoView>::empty() =~= done);
            done
        },
        Some(start) => {
            lemma_cover_flush(run, font_idx, text, mode, start, pos);
            let closed = flush(run, font_idx, text, mode, start, pos);
            if closed is Glyphs {
                lemma_cover_concat(text, done, closed->Glyphs_0, 0, start, pos);
                done + closed->Glyphs_0
            } else {
                done
            }
        },
    }
}

/// Ascending clusters lie inside the text, and the end of the text after
/// them.
proof fn lemma_clusters_stay_inside(glyphs: Seq<RawGlyph>, len: int, k: int)
    requires
        clusters_ascend(glyphs, len),
        0 <= k <= glyphs.len(),
    ensures
        0 <= cluster_at(glyphs, len, k) <= len,
    decreases glyphs.len() - k,
{
    if k < glyphs.len() {
        assert(cluster_at(glyphs, len, k) < cluster_at(glyphs, len, k + 1));
        lemma_clusters_stay_inside(glyphs, len, k + 1);
    } else if k > 0 {
        assert(cluster_at(glyphs, len, k - 1) < cluster_at(glyphs, len, k));
    }
}

proof fn lemma_cover_flush(
    run: Run,
    font_idx: usize,
    text: Seq<char>,
    mode: ShapeMode,
    start: int,
    end: int,
)
    requires
        mode == ShapeMode::Replacement,
        answers_ascend(run),
        encode_utf8(text).len() <= u32::MAX,
        font_idx < run.chain_len,
        0 <= start <= end <= encode_utf8(text).len(),
        on_boundary(text, start),
        on_boundary(text, end),
    ensures
        flush(run, font_idx, text, mode, start, end) matches Outcome::Glyphs(stretch)
            ==> spans_cover(text, stretch, start, end),
    decreases mode.rank(), run.chain_len - font_idx, 1nat, 0nat,
{
    assert(span_on_boundaries(text, start, end));
    lemma_piece_bytes(text, start, end);
    let piece = sub_text(text, start, end);
    assert(encode_utf8(piece).len() == end - start);
    lemma_cover_shape(run, (font_idx + 1) as usize, piece, mode);
    lemma_no_stand_in(run, font_idx, text, start);
    match shape_run(run, (font_idx + 1) as usize, piece, mode) {
        Outcome::Glyphs(glyphs) => {
            lemma_cover_shifted(text, glyphs, start, end);
        },
        _ => {},
    }
}

proof fn lemma_plain_shape(run: Run, font_idx: usize, text: Seq<char>)
    requires
        shape_run(run, font_idx, text, ShapeMode::Replacement) is Glyphs,
    ensures
        shape_run(run, font_idx, text, ShapeMode::Normal) == shape_run(
            run,
            font_idx,
            text,
            ShapeMode::Replacement,
        ),
    decreases run.chain_len - font_idx, 3nat, 0nat,
{
    let query = run.query(font_idx, text);
    if text.len() > 0 && font_idx < run.chain_len && run.answers.contains_key(query) {
        match run.answers[query] {
            Reply::Failed(_) => {},
            Reply::Shaped(glyphs) => {
                lemma_plain_scan(run, font_idx, text, glyphs, 0, None, Seq::empty());
            },
        }
    }
}

proof fn lemma_plain_scan(
    run: Run,
    font_idx: usize,
    text: Seq<char>,
    glyphs: Seq<RawGlyph>,
    i: int,
    pending: Option<int>,
    done: Seq<GlyphInfoView>,
)
    requires
        font_idx < run.chain_len,
        0 <= i,
        scan(run, font_idx, text, ShapeMode::Replacement, glyphs, i, pending, done) is Glyphs,
    ensures
        scan(run, font_idx, text, ShapeMode::Normal, glyphs, i, pending, done) == scan(
            run,
            font_idx,
            text,
            ShapeMode::Replacement,
            glyphs,
            i,
            pending,
            done,
        ),
    decreases run.chain_len - font_idx, 2nat, glyphs.len() - i,
{
    let strict = ShapeMode::Replacement;
    let len = encode_utf8(text).len() as int;
    if i >= glyphs.len() {
        match pending {
            None => {},
            Some(start) => {
                lemma_plain_flush(run, font_idx, text, start, len);
            },
        }
    } else if glyphs[i].codepoint == 0 {
        let opened = if pending is None {
            Some(glyphs[i].cluster as int)
        } else {
            pending
        };
        lemma_plain_scan(run, font_idx, text, glyphs, i + 1, opened, done);
    } else {
        let pos = glyphs[i].cluster as int;
        let closed = closed_before(run, font_idx, text, strict, pending, pos);
        match pending {
            None => {},
            Some(start) => {
                lemma_plain_flush(run, font_idx, text, start, pos);
            },
        }
        lemma_no_stand_in(run, font_idx, text, 0);
        let own = emit(run, font_idx, text, strict, glyphs, i);
        assert(own == emit(run, font_idx, text, ShapeMode::Normal, glyphs, i));
        lemma_plain_scan(
            run,
            font_idx,
            text,
            glyphs,
            i + 1,
            None,
            done + closed->Glyphs_0 + own->Glyphs_0,
        );
    }
}

proof fn lemma_plain_flush(run: Run, font_idx: usize, text: Seq<char>, start: int, end: int)
    requires
        font_idx < run.chain_len,
        flush(run, font_idx, text, ShapeMode::Replacement, start, end) is Glyphs,
    ensures
        flush(run, font_idx, text, ShapeMode::Normal, start, end) == flush(
            run,
            font_idx,
            text,
            ShapeMode::Replacement,
            start,
            end,
        ),
    decreases run.chain_len - font_idx, 1nat, 0nat,
{
    lemma_no_stand_in(run, font_idx, text, 0);
    lemma_no_stand_in(run, font_idx, text, start);
    if span_on_boundaries(text, start, end) {
        lemma_plain_shape(run, (font_idx + 1) as usize, sub_text(text, start, end));
    }
}

/// The partition of the text. Where a text is shaped without a stand-in,
/// so that shaping yields its glyphs even while it may not turn to the
/// replacement, and every answer of the engine has ascending clusters that
/// lie between characters, shaping yields the same glyphs in either mode,
/// and their spans cover the bytes of the text from the first to the last,
/// in order, without gap or overlap. Each glyph's text is the piece of the
/// text at its cluster offset, and the texts of all glyphs, one after the
/// other, are the text.
pub proof fn lemma_glyph_spans_partition_text(
    run: Run,
    font_idx: usize,
    text: Seq<char>,
    glyphs: Seq<GlyphInfoView>,
)
    requires
        answers_ascend(run),
        encode_utf8(text).len() <= u32::MAX,
        shape_run(run, font_idx, text, ShapeMode::Replacement) == Outcome::Glyphs(glyphs),
    ensures
        shape_run(run, font_idx, text, ShapeMode::Normal) == Outcome::Glyphs(glyphs),
        spans_cover(text, glyphs, 0, encode_utf8(text).len() as int),
        joined_text(glyphs) == text,
{
    lemma_cover_shape(run, font_idx, text, ShapeMode::Replacement);
    lemma_plain_shape(run, font_idx, text);
    lemma_cover_joins(text, glyphs, 0, encode_utf8(text).len() as int);
    lemma_whole_text_is_a_piece(text);
}

} // verus!
