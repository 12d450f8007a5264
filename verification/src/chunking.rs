//! What the chunker computes, stated over sequences of grapheme clusters,
//! and the laws that follow from that statement.
//!
//! A text is cut into windows of `chunk_size` clusters whose starts lie
//! `stride` apart. Windows that hold only whitespace are dropped; the others
//! become chunks, numbered in order from 0.

use vstd::prelude::*;
use crate::text::{is_blank, is_whitespace};

verus! {

/// The mathematical content of a chunk: its text and where it sits, counted
/// in grapheme clusters.
pub struct ChunkSpec {
    pub text: Seq<char>,
    pub index: nat,
    pub char_start: nat,
    pub char_end: nat,
}

/// How many clusters lie between `start` and the end of the text.
pub open spec fn remaining(total: nat, start: nat) -> nat {
    if start < total {
        (total - start) as nat
    } else {
        0
    }
}

/// Distance between the starts of two consecutive windows. A chunk size that
/// does not exceed the overlap would not advance; it is clamped to 1.
pub open spec fn stride(chunk_size: nat, overlap: nat) -> nat {
    if chunk_size > overlap {
        (chunk_size - overlap) as nat
    } else {
        1
    }
}

/// The windows `[start, end)` that the chunker visits from `start` on, over a
/// text of `total` clusters. The window that reaches the end of the text is
/// the last one.
pub open spec fn windows_from(total: nat, chunk_size: nat, step: nat, start: nat) -> Seq<
    (nat, nat),
>
    decreases remaining(total, start),
{
    if start >= total || step == 0 {
        Seq::empty()
    } else if start + chunk_size >= total {
        seq![(start, total)]
    } else {
        seq![(start, start + chunk_size)].add(
            windows_from(total, chunk_size, step, start + step),
        )
    }
}

/// All windows over a text of `total` clusters.
pub open spec fn windows(total: nat, chunk_size: nat, overlap: nat) -> Seq<(nat, nat)> {
    windows_from(total, chunk_size, stride(chunk_size, overlap), 0)
}

/// The text of the clusters in window `w`.
pub open spec fn window_text(graphemes: Seq<Seq<char>>, w: (nat, nat)) -> Seq<char> {
    graphemes.subrange(w.0 as int, w.1 as int).flatten()
}

/// The chunks that a run of windows yields: the windows whose text is not
/// blank, in order, each numbered by how many were emitted before it.
pub open spec fn emitted(graphemes: Seq<Seq<char>>, ws: Seq<(nat, nat)>) -> Seq<ChunkSpec>
    decreases ws.len(),
{
    if ws.len() == 0 {
        Seq::empty()
    } else {
        let before = emitted(graphemes, ws.drop_last());
        let w = ws.last();
        let text = window_text(graphemes, w);
        if is_blank(text) {
            before
        } else {
            before.push(ChunkSpec { text, index: before.len(), char_start: w.0, char_end: w.1 })
        }
    }
}

/// The chunks of a text given as its grapheme clusters.
pub open spec fn chunks_of(graphemes: Seq<Seq<char>>, chunk_size: nat, overlap: nat) -> Seq<
    ChunkSpec,
> {
    emitted(graphemes, windows(graphemes.len(), chunk_size, overlap))
}

/// Whether cluster `p` lies inside window `w`.
pub open spec fn in_window(w: (nat, nat), p: int) -> bool {
    w.0 <= p < w.1
}

/// Whether some chunk spans cluster `p`.
pub open spec fn covered(chunks: Seq<ChunkSpec>, p: int) -> bool {
    exists|i: int|
        0 <= i < chunks.len() && (#[trigger] chunks[i]).char_start <= p < chunks[i].char_end
}

/// Whether cluster `p` lies in a window that was dropped for being blank.
pub open spec fn in_dropped_window(graphemes: Seq<Seq<char>>, ws: Seq<(nat, nat)>, p: int) -> bool {
    exists|j: int|
        0 <= j < ws.len() && in_window(#[trigger] ws[j], p) && is_blank(
            window_text(graphemes, ws[j]),
        )
}

/// Every window lies inside the text, is at most `chunk_size` long, starts at
/// or after `start`, and the starts advance by exactly `step`.
pub proof fn lemma_windows_shape(total: nat, chunk_size: nat, step: nat, start: nat)
    ensures
        forall|j: int|
            #![trigger windows_from(total, chunk_size, step, start)[j]]
            0 <= j < windows_from(total, chunk_size, step, start).len() ==> {
                let w = windows_from(total, chunk_size, step, start)[j];
                &&& w.0 == start + j * step
                &&& w.0 <= w.1 <= total
                &&& w.1 - w.0 <= chunk_size
                &&& w.0 < total
                &&& (w.1 == total || w.1 == w.0 + chunk_size)
            },
    decreases remaining(total, start),
{
    let ws = windows_from(total, chunk_size, step, start);
    if start >= total || step == 0 {
        // no window
    } else if start + chunk_size >= total {
        // one window, up to the end of the text
    } else {
        let rest = windows_from(total, chunk_size, step, start + step);
        lemma_windows_shape(total, chunk_size, step, start + step);
        assert forall|j: int| #![trigger ws[j]] 0 <= j < ws.len() implies {
            let w = ws[j];
            &&& w.0 == start + j * step
            &&& w.0 <= w.1 <= total
            &&& w.1 - w.0 <= chunk_size
            &&& w.0 < total
            &&& (w.1 == total || w.1 == w.0 + chunk_size)
        } by {
            if j > 0 {
                assert(start + step + (j - 1) * step == start + j * step) by (nonlinear_arith);
            }
        }
    }
}

/// With a stride between 1 and the chunk size, the windows leave no gap:
/// every cluster from `start` on lies in one of them.
pub proof fn lemma_windows_cover(total: nat, chunk_size: nat, step: nat, start: nat, p: int)
    requires
        1 <= step <= chunk_size,
        start <= p < total,
    ensures
        exists|j: int|
            0 <= j < windows_from(total, chunk_size, step, start).len() && in_window(
                #[trigger] windows_from(total, chunk_size, step, start)[j],
                p,
            ),
    decreases remaining(total, start),
{
    let ws = windows_from(total, chunk_size, step, start);
    if start + chunk_size >= total {
        assert(in_window(ws[0], p));
    } else if p < start + chunk_size {
        assert(in_window(ws[0], p));
    } else {
        let rest = windows_from(total, chunk_size, step, start + step);
        lemma_windows_cover(total, chunk_size, step, start + step, p);
        let j = choose|j: int| 0 <= j < rest.len() && in_window(#[trigger] rest[j], p);
        assert(in_window(ws[j + 1], p));
    }
}

/// What `emitted` holds, chunk by chunk: the number of a chunk is its
/// position, its text is that of a window and is not blank, and the chunks
/// keep the order of the windows they came from.
pub proof fn lemma_emitted_shape(graphemes: Seq<Seq<char>>, ws: Seq<(nat, nat)>)
    ensures
        emitted(graphemes, ws).len() <= ws.len(),
        forall|i: int|
            #![trigger emitted(graphemes, ws)[i]]
            0 <= i < emitted(graphemes, ws).len() ==> {
                let c = emitted(graphemes, ws)[i];
                &&& c.index == i
                &&& !is_blank(c.text)
                &&& exists|j: int|
                    i <= j < ws.len() && #[trigger] ws[j] == (c.char_start, c.char_end) && c.text
                        == window_text(graphemes, ws[j])
            },
    decreases ws.len(),
{
    let out = emitted(graphemes, ws);
    if ws.len() > 0 {
        let before = emitted(graphemes, ws.drop_last());
        lemma_emitted_shape(graphemes, ws.drop_last());
        assert forall|i: int| #![trigger out[i]] 0 <= i < out.len() implies {
            let c = out[i];
            &&& c.index == i
            &&& !is_blank(c.text)
            &&& exists|j: int|
                i <= j < ws.len() && #[trigger] ws[j] == (c.char_start, c.char_end) && c.text
                    == window_text(graphemes, ws[j])
        } by {
            let c = out[i];
            if i < before.len() {
                let j = choose|j: int|
                    i <= j < ws.drop_last().len() && #[trigger] ws.drop_last()[j] == (
                        c.char_start,
                        c.char_end,
                    ) && c.text == window_text(graphemes, ws.drop_last()[j]);
            } else {
                let j = ws.len() - 1;
            }
        }
    }
}

/// A window is either dropped for being blank or appears among the chunks.
pub proof fn lemma_window_is_emitted_or_blank(
    graphemes: Seq<Seq<char>>,
    ws: Seq<(nat, nat)>,
    j: int,
)
    requires
        0 <= j < ws.len(),
    ensures
        is_blank(window_text(graphemes, ws[j])) || exists|i: int|
            0 <= i < emitted(graphemes, ws).len() && (#[trigger] emitted(graphemes, ws)[i]).char_start
                == ws[j].0 && emitted(graphemes, ws)[i].char_end == ws[j].1,
    decreases ws.len(),
{
    let out = emitted(graphemes, ws);
    let before = emitted(graphemes, ws.drop_last());
    if j == ws.len() - 1 {
        if !is_blank(window_text(graphemes, ws[j])) {
            let i = before.len() as int;
            assert(out[i].char_start == ws[j].0 && out[i].char_end == ws[j].1);
        }
    } else {
        lemma_window_is_emitted_or_blank(graphemes, ws.drop_last(), j);
        if !is_blank(window_text(graphemes, ws[j])) {
            let i = choose|i: int|
                0 <= i < before.len() && (#[trigger] before[i]).char_start == ws[j].0
                    && before[i].char_end == ws[j].1;
            assert(out[i] == before[i]);
        }
    }
}

/// Chunk numbers are contiguous from 0, whatever was dropped in between.
pub proof fn chunk_indices_are_contiguous(
    graphemes: Seq<Seq<char>>,
    chunk_size: nat,
    overlap: nat,
)
    ensures
        forall|i: int|
            0 <= i < chunks_of(graphemes, chunk_size, overlap).len() ==> (#[trigger] chunks_of(
                graphemes,
                chunk_size,
                overlap,
            )[i]).index == i,
{
    lemma_emitted_shape(graphemes, windows(graphemes.len(), chunk_size, overlap));
}

/// With a chunk size above the overlap, every cluster of the text lies in
/// the span of some chunk, or in a window that held only whitespace and was
/// dropped.
pub proof fn chunks_cover_text(graphemes: Seq<Seq<char>>, chunk_size: nat, overlap: nat)
    requires
        chunk_size > overlap,
    ensures
        forall|p: int|
            0 <= p < graphemes.len() ==> #[trigger] covered(
                chunks_of(graphemes, chunk_size, overlap),
                p,
            ) || in_dropped_window(
                graphemes,
                windows(graphemes.len(), chunk_size, overlap),
                p,
            ),
{
    let total = graphemes.len();
    let ws = windows(total, chunk_size, overlap);
    let chunks = chunks_of(graphemes, chunk_size, overlap);
    assert forall|p: int| 0 <= p < total implies #[trigger] covered(chunks, p)
        || in_dropped_window(graphemes, ws, p) by {
        lemma_windows_cover(total, chunk_size, stride(chunk_size, overlap), 0, p);
        let j = choose|j: int| 0 <= j < ws.len() && in_window(#[trigger] ws[j], p);
        lemma_window_is_emitted_or_blank(graphemes, ws, j);
    }
}

/// Every chunk is a window of the text: it is not blank, holds at most
/// `chunk_size` clusters, and its text is that of the clusters it spans.
pub proof fn chunks_are_windows(graphemes: Seq<Seq<char>>, chunk_size: nat, overlap: nat)
    ensures
        forall|i: int|
            #![trigger chunks_of(graphemes, chunk_size, overlap)[i]]
            0 <= i < chunks_of(graphemes, chunk_size, overlap).len() ==> {
                let c = chunks_of(graphemes, chunk_size, overlap)[i];
                &&& c.char_start <= c.char_end <= graphemes.len()
                &&& c.char_end - c.char_start <= chunk_size
                &&& c.text == window_text(graphemes, (c.char_start, c.char_end))
                &&& !is_blank(c.text)
            },
{
    let total = graphemes.len();
    let step = stride(chunk_size, overlap);
    let ws = windows(total, chunk_size, overlap);
    let chunks = chunks_of(graphemes, chunk_size, overlap);
    lemma_emitted_shape(graphemes, ws);
    lemma_windows_shape(total, chunk_size, step, 0);
    assert forall|i: int| #![trigger chunks[i]] 0 <= i < chunks.len() implies {
        let c = chunks[i];
        &&& c.char_start <= c.char_end <= graphemes.len()
        &&& c.char_end - c.char_start <= chunk_size
        &&& c.text == window_text(graphemes, (c.char_start, c.char_end))
        &&& !is_blank(c.text)
    } by {
        let c = chunks[i];
        let j = choose|j: int|
            i <= j < ws.len() && #[trigger] ws[j] == (c.char_start, c.char_end) && c.text
                == window_text(graphemes, ws[j]);
    }
}

/// Where the windows start ever later, so do the chunks made of them.
pub proof fn lemma_emitted_ordered(graphemes: Seq<Seq<char>>, ws: Seq<(nat, nat)>)
    requires
        forall|a: int, b: int| 0 <= a < b < ws.len() ==> (#[trigger] ws[a]).0 < (#[trigger] ws[b]).0,
    ensures
        forall|i: int, j: int|
            0 <= i < j < emitted(graphemes, ws).len() ==> (#[trigger] emitted(
                graphemes,
                ws,
            )[i]).char_start < (#[trigger] emitted(graphemes, ws)[j]).char_start,
    decreases ws.len(),
{
    if ws.len() > 0 {
        let head = ws.drop_last();
        lemma_emitted_ordered(graphemes, head);
        lemma_emitted_shape(graphemes, head);
    }
}

/// The chunks of a text come in the order of the text: each starts after
/// the one before it.
pub proof fn chunk_offsets_increase(graphemes: Seq<Seq<char>>, chunk_size: nat, overlap: nat)
    ensures
        forall|i: int, j: int|
            0 <= i < j < chunks_of(graphemes, chunk_size, overlap).len() ==> (#[trigger] chunks_of(
                graphemes,
                chunk_size,
                overlap,
            )[i]).char_start < (#[trigger] chunks_of(graphemes, chunk_size, overlap)[j]).char_start,
{
    let total = graphemes.len();
    let step = stride(chunk_size, overlap);
    let ws = windows(total, chunk_size, overlap);
    lemma_windows_shape(total, chunk_size, step, 0);
    assert forall|a: int, b: int| 0 <= a < b < ws.len() implies (#[trigger] ws[a]).0 < (
    #[trigger] ws[b]).0 by {
        assert(a * step < b * step) by (nonlinear_arith)
            requires
                0 <= a < b,
                step >= 1,
        ;
    }
    lemma_emitted_ordered(graphemes, ws);
}

/// Every cluster of a blank text is blank.
pub proof fn lemma_blank_parts(graphemes: Seq<Seq<char>>, i: int)
    requires
        is_blank(graphemes.flatten()),
        0 <= i < graphemes.len(),
    ensures
        is_blank(graphemes[i]),
    decreases graphemes.len(),
{
    let whole = graphemes.flatten();
    let head = graphemes.first();
    let rest = graphemes.drop_first();
    assert(whole == head + rest.flatten());
    if i == 0 {
        assert forall|k: int| 0 <= k < head.len() implies is_whitespace(#[trigger] head[k]) by {
            assert(whole[k] == head[k]);
        }
    } else {
        assert forall|k: int| 0 <= k < rest.flatten().len() implies is_whitespace(
            #[trigger] rest.flatten()[k],
        ) by {
            assert(whole[head.len() + k] == rest.flatten()[k]);
        }
        lemma_blank_parts(rest, i - 1);
    }
}

/// Clusters that are all blank spell a blank text.
pub proof fn lemma_blank_flatten(graphemes: Seq<Seq<char>>)
    requires
        forall|i: int| 0 <= i < graphemes.len() ==> is_blank(#[trigger] graphemes[i]),
    ensures
        is_blank(graphemes.flatten()),
    decreases graphemes.len(),
{
    if graphemes.len() > 0 {
        let head = graphemes.first();
        let rest = graphemes.drop_first();
        assert forall|i: int| 0 <= i < rest.len() implies is_blank(#[trigger] rest[i]) by {
            assert(rest[i] == graphemes[i + 1]);
        }
        lemma_blank_flatten(rest);
        let whole = graphemes.flatten();
        assert(whole == head + rest.flatten());
        assert forall|k: int| 0 <= k < whole.len() implies is_whitespace(#[trigger] whole[k]) by {
            if k < head.len() {
                assert(whole[k] == head[k]);
            } else {
                assert(whole[k] == rest.flatten()[k - head.len()]);
            }
        }
    }
}

/// Windows that are all blank yield no chunk.
pub proof fn lemma_emitted_blank(graphemes: Seq<Seq<char>>, ws: Seq<(nat, nat)>)
    requires
        forall|j: int| 0 <= j < ws.len() ==> is_blank(window_text(graphemes, #[trigger] ws[j])),
    ensures
        emitted(graphemes, ws).len() == 0,
    decreases ws.len(),
{
    if ws.len() > 0 {
        assert forall|j: int| 0 <= j < ws.drop_last().len() implies is_blank(
            window_text(graphemes, #[trigger] ws.drop_last()[j]),
        ) by {
            assert(ws.drop_last()[j] == ws[j]);
        }
        lemma_emitted_blank(graphemes, ws.drop_last());
        assert(is_blank(window_text(graphemes, ws[ws.len() - 1])));
    }
}

/// A text that holds nothing but whitespace has no chunks.
pub proof fn blank_text_has_no_chunks(graphemes: Seq<Seq<char>>, chunk_size: nat, overlap: nat)
    requires
        is_blank(graphemes.flatten()),
    ensures
        chunks_of(graphemes, chunk_size, overlap).len() == 0,
{
    let total = graphemes.len();
    let ws = windows(total, chunk_size, overlap);
    lemma_windows_shape(total, chunk_size, stride(chunk_size, overlap), 0);
    assert forall|j: int| 0 <= j < ws.len() implies is_blank(
        window_text(graphemes, #[trigger] ws[j]),
    ) by {
        let part = graphemes.subrange(ws[j].0 as int, ws[j].1 as int);
        assert forall|i: int| 0 <= i < part.len() implies is_blank(#[trigger] part[i]) by {
            lemma_blank_parts(graphemes, ws[j].0 + i);
        }
        lemma_blank_flatten(part);
    }
    lemma_emitted_blank(graphemes, ws);
}

/// A text without clusters has no chunks.
pub proof fn empty_text_has_no_chunks(chunk_size: nat, overlap: nat)
    ensures
        chunks_of(Seq::<Seq<char>>::empty(), chunk_size, overlap).len() == 0,
{
}

} // verus!
