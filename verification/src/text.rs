//! Word-level text chunking for the ingestion pipeline.
use vstd::prelude::*;
use crate::strings::{
    is_word, join, join_range, lemma_words_are_words, lemma_words_of_join, split_words,
    string_from_chars, views, words,
};

verus! {

/// The single space that separates the words of a chunk.
pub open spec fn space() -> Seq<char> {
    seq![' ']
}

/// Measure for [`windows_from`]: how many words are left after `start`.
pub open spec fn words_left(n: nat, start: nat) -> nat {
    if start <= n {
        (n - start) as nat
    } else {
        0
    }
}

/// The windows of `ws` that start at `start`, `start + step`, ...: each
/// window holds at most `max` words, and the sequence ends with the first
/// window that reaches the last word.
pub open spec fn windows_from(ws: Seq<Seq<char>>, start: nat, max: nat, step: nat) -> Seq<
    Seq<Seq<char>>,
>
    decreases words_left(ws.len(), start),
{
    if start >= ws.len() {
        Seq::empty()
    } else {
        let end = if start + max < ws.len() {
            start + max
        } else {
            ws.len()
        };
        let w = ws.subrange(start as int, end as int);
        if end == ws.len() || step == 0 {
            seq![w]
        } else {
            seq![w] + windows_from(ws, start + step, max, step)
        }
    }
}

/// The word windows of a sliding window of `max` words whose consecutive
/// windows share `overlap` words.
pub open spec fn windows(ws: Seq<Seq<char>>, max: nat, overlap: nat) -> Seq<Seq<Seq<char>>> {
    windows_from(ws, 0, max, (max - overlap) as nat)
}

/// The text of each window of `ws`: its words joined by single spaces.
pub open spec fn window_texts(wins: Seq<Seq<Seq<char>>>) -> Seq<Seq<char>> {
    wins.map_values(|w: Seq<Seq<char>>| join(w, space()))
}

/// Everything after the first window of `wins`, each window with its first
/// `k` (shared) words dropped.
pub open spec fn stitch_rest(wins: Seq<Seq<Seq<char>>>, k: nat) -> Seq<Seq<char>>
    decreases wins.len(),
{
    if wins.len() == 0 {
        Seq::empty()
    } else {
        wins[0].skip(k as int) + stitch_rest(wins.drop_first(), k)
    }
}

/// The windows laid end to end with the `k` words that each window shares
/// with the one before it counted once.
pub open spec fn stitch(wins: Seq<Seq<Seq<char>>>, k: nat) -> Seq<Seq<char>> {
    if wins.len() == 0 {
        Seq::empty()
    } else {
        wins[0] + stitch_rest(wins.drop_first(), k)
    }
}

/// The shape of the windows from `start` on: sizes, overlaps and coverage.
proof fn lemma_windows_from_shape(ws: Seq<Seq<char>>, start: nat, max: nat, step: nat)
    requires
        0 < step <= max,
    ensures
        (windows_from(ws, start, max, step).len() == 0) == (start >= ws.len()),
        forall|i: int|
            0 <= i < windows_from(ws, start, max, step).len() ==> 0 < (#[trigger] windows_from(
                ws,
                start,
                max,
                step,
            )[i]).len() <= max,
        forall|i: int|
            0 <= i < windows_from(ws, start, max, step).len() - 1 ==> (#[trigger] windows_from(
                ws,
                start,
                max,
                step,
            )[i]).len() == max && windows_from(ws, start, max, step)[i].skip(step as int)
                == windows_from(ws, start, max, step)[i + 1].take((max - step) as int),
        start < ws.len() ==> stitch(windows_from(ws, start, max, step), (max - step) as nat)
            == ws.subrange(start as int, ws.len() as int),
    decreases words_left(ws.len(), start),
{
    let wins = windows_from(ws, start, max, step);
    let k = (max - step) as nat;
    if start < ws.len() {
        let end = if start + max < ws.len() {
            start + max
        } else {
            ws.len()
        };
        let w = ws.subrange(start as int, end as int);
        if end == ws.len() {
            assert(wins == seq![w]);
            assert(stitch_rest(wins.drop_first(), k) == Seq::<Seq<char>>::empty());
            assert(stitch(wins, k) =~= w);
        } else {
            let rest = windows_from(ws, start + step, max, step);
            lemma_windows_from_shape(ws, start + step, max, step);
            assert(wins == seq![w] + rest);
            assert(wins.drop_first() =~= rest);
            assert forall|i: int| 0 <= i < wins.len() implies 0 < (#[trigger] wins[i]).len()
                <= max by {
                if i > 0 {
                    assert(wins[i] == rest[i - 1]);
                }
            }
            assert forall|i: int| 0 <= i < wins.len() - 1 implies (#[trigger] wins[i]).len() == max
                && wins[i].skip(step as int) == wins[i + 1].take(k as int) by {
                if i > 0 {
                    assert(wins[i] == rest[i - 1]);
                    assert(wins[i + 1] == rest[i]);
                } else {
                    let r0 = rest[0];
                    let e2 = if start + step + max < ws.len() {
                        start + step + max
                    } else {
                        ws.len()
                    };
                    assert(r0 == ws.subrange((start + step) as int, e2 as int));
                    assert(w.skip(step as int) =~= r0.take(k as int));
                }
            }
            let r0 = rest[0];
            assert(r0.len() >= k);
            assert(stitch(rest, k) == r0 + stitch_rest(rest.drop_first(), k));
            assert(stitch_rest(rest, k) == r0.skip(k as int) + stitch_rest(rest.drop_first(), k));
            assert(stitch(rest, k).skip(k as int) =~= stitch_rest(rest, k));
            assert(stitch(wins, k) == w + stitch_rest(rest, k));
            assert(stitch(wins, k) =~= ws.subrange(start as int, ws.len() as int));
        }
    }
}

/// Every chunk window holds between one and `max` words; every window but
/// the last is full and shares its last `overlap` words with the first
/// `overlap` words of the next; and laid end to end, with each shared run
/// counted once, the windows give back exactly the words of the text.
pub proof fn lemma_windows_shape(ws: Seq<Seq<char>>, max: nat, overlap: nat)
    requires
        overlap < max,
    ensures
        (windows(ws, max, overlap).len() == 0) == (ws.len() == 0),
        forall|i: int|
            0 <= i < windows(ws, max, overlap).len() ==> 0 < (#[trigger] windows(
                ws,
                max,
                overlap,
            )[i]).len() <= max,
        forall|i: int|
            0 <= i < windows(ws, max, overlap).len() - 1 ==> (#[trigger] windows(
                ws,
                max,
                overlap,
            )[i]).len() == max && windows(ws, max, overlap)[i].skip(max - overlap)
                == windows(ws, max, overlap)[i + 1].take(overlap as int),
        stitch(windows(ws, max, overlap), overlap) == ws,
{
    let step = (max - overlap) as nat;
    lemma_windows_from_shape(ws, 0, max, step);
    assert((max - step) as nat == overlap);
    if ws.len() > 0 {
        assert(ws.subrange(0, ws.len() as int) =~= ws);
    } else {
        assert(windows(ws, max, overlap) == Seq::<Seq<Seq<char>>>::empty());
    }
}

/// Windows cut from a list of words hold only words.
proof fn lemma_windows_from_words(ws: Seq<Seq<char>>, start: nat, max: nat, step: nat)
    requires
        forall|k: int| 0 <= k < ws.len() ==> is_word(#[trigger] ws[k]),
    ensures
        forall|i: int, j: int|
            0 <= i < windows_from(ws, start, max, step).len() && 0 <= j < windows_from(
                ws,
                start,
                max,
                step,
            )[i].len() ==> is_word(#[trigger] windows_from(ws, start, max, step)[i][j]),
    decreases words_left(ws.len(), start),
{
    let wins = windows_from(ws, start, max, step);
    if start < ws.len() {
        let end = if start + max < ws.len() {
            start + max
        } else {
            ws.len()
        };
        let w = ws.subrange(start as int, end as int);
        if end == ws.len() || step == 0 {
            assert(wins == seq![w]);
            assert forall|i: int, j: int| 0 <= i < wins.len() && 0 <= j < wins[i].len() implies is_word(
                #[trigger] wins[i][j],
            ) by {
                assert(wins[i][j] == ws[start + j]);
            }
        } else {
            let rest = windows_from(ws, start + step, max, step);
            lemma_windows_from_words(ws, start + step, max, step);
            assert(wins == seq![w] + rest);
            assert forall|i: int, j: int| 0 <= i < wins.len() && 0 <= j < wins[i].len() implies is_word(
                #[trigger] wins[i][j],
            ) by {
                if i == 0 {
                    assert(wins[i][j] == ws[start + j]);
                } else {
                    assert(wins[i] == rest[i - 1]);
                }
            }
        }
    }
}

/// Each chunk of `text`, split into words again, gives back exactly the
/// words of its window: so every chunk holds between one and `max` words
/// as [`word_count`] counts them. A text of at most `max` words (and at
/// least one) gives a single chunk: its words joined by single spaces.
pub proof fn lemma_chunk_word_counts(text: Seq<char>, max: nat, overlap: nat)
    requires
        overlap < max,
    ensures
        forall|i: int|
            0 <= i < window_texts(windows(words(text), max, overlap)).len() ==> words(
                #[trigger] window_texts(windows(words(text), max, overlap))[i],
            ) == windows(words(text), max, overlap)[i] && 0 < words(
                window_texts(windows(words(text), max, overlap))[i],
            ).len() <= max,
        0 < words(text).len() <= max ==> window_texts(windows(words(text), max, overlap)) == seq![
            join(words(text), space()),
        ],
{
    let ws = words(text);
    let wins = windows(ws, max, overlap);
    let step = (max - overlap) as nat;
    lemma_words_are_words(text);
    lemma_windows_shape(ws, max, overlap);
    lemma_windows_from_words(ws, 0, max, step);
    assert forall|i: int| 0 <= i < window_texts(wins).len() implies words(
        #[trigger] window_texts(wins)[i],
    ) == wins[i] && 0 < words(window_texts(wins)[i]).len() <= max by {
        assert(window_texts(wins)[i] == join(wins[i], space()));
        assert forall|j: int| 0 <= j < wins[i].len() implies is_word(#[trigger] wins[i][j]) by {}
        lemma_words_of_join(wins[i]);
    }
    if 0 < ws.len() <= max {
        assert(ws.subrange(0, ws.len() as int) =~= ws);
        assert(wins == seq![ws]);
        assert(window_texts(wins) =~= seq![join(ws, space())]);
    }
}

/// The views of a vector of strings.
pub open spec fn string_views(v: Seq<String>) -> Seq<Seq<char>> {
    v.map_values(|s: String| s@)
}

/// Splits `text` into overlapping chunks using a sliding window.
///
/// Each window is at most `max_words` wide. The next window starts at
/// `max_words - overlap_words` from the current start, so consecutive
/// chunks share `overlap_words` of trailing context. Within a chunk the
/// words are separated by single spaces.
pub fn sliding_window_chunks(text: &str, max_words: usize, overlap_words: usize) -> (chunks: Vec<
    String,
>)
    requires
        overlap_words < max_words,
    ensures
        string_views(chunks@) == window_texts(
            windows(words(text@), max_words as nat, overlap_words as nat),
        ),
{
    let ws = split_words(text);
    let ghost w = words(text@);
    let step = max_words - overlap_words;
    let mut chunks: Vec<String> = Vec::new();
    if ws.len() == 0 {
        assert(string_views(chunks@) =~= window_texts(
            windows(w, max_words as nat, overlap_words as nat),
        ));
        return chunks;
    }
    let mut sep: Vec<char> = Vec::new();
    sep.push(' ');
    assert(sep@ =~= space());
    let mut start: usize = 0;
    loop
        invariant
            views(ws@) == w,
            w == words(text@),
            sep@ == space(),
            0 < step == max_words - overlap_words,
            start < ws.len(),
            string_views(chunks@) + window_texts(
                windows_from(w, start as nat, max_words as nat, step as nat),
            ) == window_texts(windows(w, max_words as nat, overlap_words as nat)),
        decreases ws.len() - start,
    {
        let end = if max_words < ws.len() - start {
            start + max_words
        } else {
            ws.len()
        };
        let piece = join_range(&ws, start, end, &sep);
        let chunk = string_from_chars(piece.as_slice());
        let ghost before = string_views(chunks@);
        let ghost win = w.subrange(start as int, end as int);
        assert(views(ws@).subrange(start as int, end as int) == win);
        chunks.push(chunk);
        assert(string_views(chunks@) =~= before.push(join(win, space())));
        if end == ws.len() {
            assert(windows_from(w, start as nat, max_words as nat, step as nat) == seq![win]);
            assert(window_texts(seq![win]) =~= seq![join(win, space())]);
            assert(string_views(chunks@) =~= before + window_texts(seq![win]));
            assert(string_views(chunks@) == window_texts(
                windows(w, max_words as nat, overlap_words as nat),
            ));
            return chunks;
        }
        let ghost rest = windows_from(w, (start + step) as nat, max_words as nat, step as nat);
        assert(windows_from(w, start as nat, max_words as nat, step as nat) == seq![win] + rest);
        assert(window_texts(seq![win] + rest) =~= seq![join(win, space())] + window_texts(rest));
        assert(before + (seq![join(win, space())] + window_texts(rest)) =~= string_views(chunks@)
            + window_texts(rest));
        start = start + step;
    }
}

/// Counts whitespace-delimited words, as `wc -w` does.
pub fn word_count(text: &str) -> (n: usize)
    ensures
        n == words(text@).len(),
{
    let ws = split_words(text);
    assert(views(ws@).len() == ws@.len());
    ws.len()
}

} // verus!
