//! Falling words: their horizontal spans, where a new word may be placed,
//! and how the active words move down one row per fall tick.

use vstd::prelude::*;

verus! {

/// A word on screen: its text and its position as (column, row).
#[derive(Debug, PartialEq, Eq)]
pub struct Word {
    pub text: String,
    pub pos: (u16, u16),
}

/// What a falling word is, mathematically.
pub struct WordView {
    pub text: Seq<char>,
    pub col: u16,
    pub row: u16,
}

impl View for Word {
    type V = WordView;

    open spec fn view(&self) -> WordView {
        WordView { text: self.text@, col: self.pos.0, row: self.pos.1 }
    }
}

/// The views of a sequence of words.
pub open spec fn views(ws: Seq<Word>) -> Seq<WordView> {
    ws.map_values(|w: Word| w@)
}

/// The span `[col, col + len)` is clear of the span of `w`.
pub open spec fn apart(w: WordView, col: int, len: int) -> bool {
    col + len <= w.col || col >= w.col + w.text.len()
}

/// The span `[col, col + len)` overlaps the span of no word of `ws`.
pub open spec fn span_free(ws: Seq<WordView>, col: int, len: int) -> bool {
    forall|i: int| 0 <= i < ws.len() ==> #[trigger] apart(ws[i], col, len)
}

/// The largest column at which a word of `len` characters fits into a field
/// `width` columns wide; 0 where it does not fit at all.
pub open spec fn max_col(width: u16, len: nat) -> nat {
    if width > len {
        (width - len) as nat
    } else {
        0
    }
}

/// How many random column draws a spawn tries before it falls back to
/// column 0.
pub const SPAWN_ATTEMPTS: usize = 100;

/// The draws that a spawn looks at.
pub open spec fn tried(draws: Seq<u16>) -> nat {
    if draws.len() < SPAWN_ATTEMPTS {
        draws.len()
    } else {
        SPAWN_ATTEMPTS as nat
    }
}

/// The column a spawn picks from `draws`: the first tried draw whose span is
/// clear of every active word, or column 0 where none is.
pub open spec fn picked(ws: Seq<WordView>, len: nat, draws: Seq<u16>, col: u16) -> bool {
    ||| (exists|k: int|
        0 <= k < tried(draws) && span_free(ws, draws[k] as int, len as int) && col == draws[k]
            && forall|j: int| 0 <= j < k ==> !span_free(ws, #[trigger] draws[j] as int, len as int))
    ||| (col == 0 && forall|j: int|
        0 <= j < tried(draws) ==> !span_free(ws, #[trigger] draws[j] as int, len as int))
}

/// Whether the span `[col, col + len)` is clear of every word of `ws`.
pub fn span_is_free(ws: &Vec<Word>, col: u16, len: usize) -> (r: bool)
    ensures
        r == span_free(views(ws@), col as int, len as int),
{
    let mut i: usize = 0;
    while i < ws.len()
        invariant
            i <= ws.len(),
            forall|j: int| 0 <= j < i ==> #[trigger] apart(views(ws@)[j], col as int, len as int),
        decreases ws.len() - i,
    {
        let start = ws[i].pos.0;
        let wlen = ws[i].text.as_str().unicode_len();
        let clear = (col <= start && len <= (start - col) as usize) || (col >= start && (col
            - start) as usize >= wlen);
        assert(views(ws@)[i as int] == ws@[i as int]@);
        if !clear {
            assert(!apart(views(ws@)[i as int], col as int, len as int));
            return false;
        }
        i = i + 1;
    }
    true
}

/// The column for a new word of `len` characters, given the random column
/// draws: the first of the first `SPAWN_ATTEMPTS` draws whose span is clear
/// of every active word, and column 0 where there is none.
pub fn pick_column(ws: &Vec<Word>, len: usize, draws: &Vec<u16>) -> (col: u16)
    ensures
        picked(views(ws@), len as nat, draws@, col),
{
    let n: usize = if draws.len() < SPAWN_ATTEMPTS {
        draws.len()
    } else {
        SPAWN_ATTEMPTS
    };
    let mut k: usize = 0;
    while k < n
        invariant
            n == tried(draws@),
            k <= n,
            forall|j: int|
                0 <= j < k ==> !span_free(views(ws@), #[trigger] draws@[j] as int, len as int),
        decreases n - k,
    {
        if span_is_free(ws, draws[k], len) {
            return draws[k];
        }
        k = k + 1;
    }
    0
}

/// A word after one fall tick: gone where it stood on the bottom row,
/// one row lower otherwise.
pub open spec fn fall_one(bottom: u16) -> spec_fn(WordView) -> Option<WordView> {
    |w: WordView|
        if w.row == bottom {
            None
        } else {
            Some(WordView { row: (w.row + 1) as u16, ..w })
        }
}

/// The active words after one fall tick.
pub open spec fn fallen(ws: Seq<WordView>, bottom: u16) -> Seq<WordView> {
    ws.filter_map(fall_one(bottom))
}

/// The words that escape on one fall tick: those on the bottom row.
pub open spec fn escapees(ws: Seq<WordView>, bottom: u16) -> Seq<WordView> {
    ws.filter_map(|w: WordView| if w.row == bottom { Some(w) } else { None })
}

/// Every word of `ws` stands at most on row `bottom`.
pub open spec fn above(ws: Seq<WordView>, bottom: u16) -> bool {
    forall|i: int| 0 <= i < ws.len() ==> #[trigger] ws[i].row <= bottom
}

/// Moves every word one row down, removes those that stood on the bottom
/// row, and returns how many were removed. Columns never change.
pub fn advance(words: &mut Vec<Word>, bottom: u16) -> (escaped: usize)
    requires
        above(views(old(words)@), bottom),
    ensures
        views(final(words)@) == fallen(views(old(words)@), bottom),
        escaped == escapees(views(old(words)@), bottom).len(),
        escaped <= old(words)@.len(),
        final(words)@.len() <= old(words)@.len(),
        above(views(final(words)@), bottom),
{
    let ghost before = views(words@);
    let mut kept: Vec<Word> = Vec::new();
    let mut escaped: usize = 0;
    let mut i: usize = 0;
    while i < words.len()
        invariant
            words@ == old(words)@,
            before == views(words@),
            above(before, bottom),
            i <= words.len(),
            escaped <= i,
            kept@.len() <= i,
            above(views(kept@), bottom),
            views(kept@) == before.take(i as int).filter_map(fall_one(bottom)),
            escaped == before.take(i as int).filter_map(
                |w: WordView| if w.row == bottom { Some(w) } else { None },
            ).len(),
        decreases words.len() - i,
    {
        proof {
            before.lemma_filter_map_take_succ(fall_one(bottom), i as int);
            before.lemma_filter_map_take_succ(
                |w: WordView| if w.row == bottom { Some(w) } else { None },
                i as int,
            );
        }
        let w = &words[i];
        assert(before[i as int] == w@);
        if w.pos.1 == bottom {
            escaped = escaped + 1;
        } else {
            let moved = Word { text: w.text.clone(), pos: (w.pos.0, w.pos.1 + 1) };
            kept.push(moved);
            assert(views(kept@) =~= before.take(i as int + 1).filter_map(fall_one(bottom)));
        }
        i = i + 1;
    }
    assert(before.take(i as int) =~= before);
    *words = kept;
    escaped
}

} // verus!
