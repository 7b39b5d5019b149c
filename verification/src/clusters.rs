//! The byte spans of shaped glyphs, rebuilt from their cluster offsets.
//!
//! A shaping engine reports for each glyph only where its text starts. A
//! ligature or a combining sequence makes one glyph stand for several bytes,
//! so the length of each span is the distance to the next glyph's start.

use crate::glyph::RawGlyph;
use vstd::prelude::*;

verus! {

/// Where glyph `i` starts in a text of `len` bytes; past the last glyph,
/// the end of the text.
pub open spec fn cluster_at(glyphs: Seq<RawGlyph>, len: int, i: int) -> int {
    if 0 <= i < glyphs.len() {
        glyphs[i].cluster as int
    } else {
        len
    }
}

/// The number of bytes attributed to glyph `i`: the distance to the next
/// glyph's start (or to the end of the text) where that is more than one
/// byte. Otherwise one byte, but for a first glyph that does not start at
/// offset 0, which gets as many bytes as precede it.
pub open spec fn cluster_size(glyphs: Seq<RawGlyph>, len: int, i: int) -> int {
    let diff = cluster_at(glyphs, len, i + 1) - cluster_at(glyphs, len, i);
    if diff > 1 {
        diff
    } else if i == 0 && glyphs[0].cluster != 0 {
        glyphs[0].cluster as int
    } else {
        1
    }
}

/// The spans of the glyphs, each from its start over its size, lie end to
/// end and cover a text of `len` bytes exactly.
pub open spec fn spans_tile(glyphs: Seq<RawGlyph>, len: int) -> bool {
    &&& cluster_at(glyphs, len, 0) == 0
    &&& forall|i: int|
        0 <= i < glyphs.len() ==> cluster_at(glyphs, len, i) + #[trigger] cluster_size(
            glyphs,
            len,
            i,
        ) == cluster_at(glyphs, len, i + 1)
}

/// The glyphs start at offset 0, each later than the one before, and all
/// inside a text of `len` bytes; without glyphs the text is empty.
pub open spec fn clusters_ascend(glyphs: Seq<RawGlyph>, len: int) -> bool {
    &&& cluster_at(glyphs, len, 0) == 0
    &&& forall|i: int|
        0 <= i < glyphs.len() ==> #[trigger] cluster_at(glyphs, len, i) < cluster_at(
            glyphs,
            len,
            i + 1,
        )
}

/// The spans partition the text, without gap or overlap, exactly when the
/// cluster offsets start at 0 and ascend strictly below the text's length.
pub proof fn lemma_spans_partition_text(glyphs: Seq<RawGlyph>, len: int)
    ensures
        spans_tile(glyphs, len) <==> clusters_ascend(glyphs, len),
{
    if spans_tile(glyphs, len) {
        assert forall|i: int| 0 <= i < glyphs.len() implies #[trigger] cluster_at(glyphs, len, i)
            < cluster_at(glyphs, len, i + 1) by {
            assert(cluster_size(glyphs, len, i) >= 1);
        }
    }
    if clusters_ascend(glyphs, len) {
        assert forall|i: int| 0 <= i < glyphs.len() implies cluster_at(glyphs, len, i)
            + #[trigger] cluster_size(glyphs, len, i) == cluster_at(glyphs, len, i + 1) by {
            assert(cluster_at(glyphs, len, i) < cluster_at(glyphs, len, i + 1));
        }
    }
}

/// Computes the size of every glyph's span in a text of `len` bytes.
pub fn cluster_sizes(glyphs: &[RawGlyph], len: usize) -> (sizes: Vec<usize>)
    ensures
        sizes@.len() == glyphs@.len(),
        forall|i: int|
            0 <= i < glyphs@.len() ==> sizes@[i] as int == cluster_size(glyphs@, len as int, i),
{
    let n: usize = glyphs.len();
    let mut sizes: Vec<usize> = Vec::new();
    let mut last_text_pos: Option<usize> = None;
    let mut i: usize = 0;
    while i < n
        invariant
            i <= n,
            n == glyphs@.len(),
            sizes@.len() == i,
            i == 0 ==> last_text_pos.is_none(),
            i > 0 ==> last_text_pos == Some(glyphs@[i - 1].cluster as usize),
            forall|j: int|
                0 <= j < i - 1 ==> sizes@[j] as int == cluster_size(glyphs@, len as int, j),
            i > 0 ==> sizes@[i - 1] as int == (if i == 1 && glyphs@[0].cluster != 0 {
                glyphs@[0].cluster as int
            } else {
                1
            }),
        decreases n - i,
    {
        let pos: usize = glyphs[i].cluster as usize;
        let mut size: usize = 1;
        if let Some(last_pos) = last_text_pos {
            if pos > last_pos && pos - last_pos > 1 {
                sizes.set(i - 1, pos - last_pos);
            }
        } else if pos != 0 {
            size = pos;
        }
        last_text_pos = Some(pos);
        sizes.push(size);
        i += 1;
    }
    if let Some(last_pos) = last_text_pos {
        if len > last_pos && len - last_pos > 1 {
            sizes.set(n - 1, len - last_pos);
        }
    }
    sizes
}

} // verus!
