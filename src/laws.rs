//! Properties that hold across the game's operations, stated over the
//! mathematical model and proved.

use vstd::prelude::*;
use crate::game::{
    acted, bottom_row, entry_key, fallen_state, first_match, frame, in_bounds, GameView,
    FALL_FRAMES, MAX_WORDS_IN_FRAME,
};
use crate::text::trim_of;
use crate::input::{Action, KeyEvent, action_of};
use crate::words::{escapees, fall_one, fallen, picked, span_free, tried, WordView};

verus! {

/// `w` is `earlier` at a later moment: the same text and column, on the
/// same row or a lower one.
pub open spec fn descends(earlier: WordView, w: WordView) -> bool {
    &&& w.text == earlier.text
    &&& w.col == earlier.col
    &&& earlier.row <= w.row
}

/// `w` is a later state of some word of `ws`.
pub open spec fn from(ws: Seq<WordView>, w: WordView) -> bool {
    exists|j: int| 0 <= j < ws.len() && #[trigger] descends(ws[j], w)
}

/// Every word of `news` is a later state of a word of `olds`.
pub open spec fn all_from(olds: Seq<WordView>, news: Seq<WordView>) -> bool {
    forall|i: int| 0 <= i < news.len() ==> #[trigger] from(olds, news[i])
}

/// A spawn's column is clear of every falling word, unless none of the
/// tried draws was clear: only then does it fall back to column 0, where it
/// may overlap.
pub proof fn lemma_spawn_clear_unless_fallback(
    ws: Seq<WordView>,
    len: nat,
    draws: Seq<u16>,
    col: u16,
)
    requires
        picked(ws, len, draws, col),
    ensures
        span_free(ws, col as int, len as int) || (col == 0 && forall|j: int|
            0 <= j < tried(draws) ==> !span_free(ws, #[trigger] draws[j] as int, len as int)),
{
}

/// A word spawned in a frame is clear of every other falling word, unless
/// it stands at the fallback column 0.
pub proof fn lemma_frame_spawn_clear(g: GameView, event: Option<KeyEvent>, next: GameView)
    requires
        frame(g, event, next),
        next.words.len() > fallen_state(g, event).words.len(),
    ensures
        ({
            let w = next.words.last();
            span_free(next.words.drop_last(), w.col as int, w.text.len() as int) || w.col == 0
        }),
{
}

proof fn lemma_all_from_trans(a: Seq<WordView>, b: Seq<WordView>, c: Seq<WordView>)
    requires
        all_from(a, b),
        all_from(b, c),
    ensures
        all_from(a, c),
{
    assert forall|i: int| 0 <= i < c.len() implies #[trigger] from(a, c[i]) by {
        assert(from(b, c[i]));
        let j = choose|j: int| 0 <= j < b.len() && #[trigger] descends(b[j], c[i]);
        assert(from(a, b[j]));
        let m = choose|m: int| 0 <= m < a.len() && #[trigger] descends(a[m], b[j]);
        assert(descends(a[m], c[i]));
    }
}

proof fn lemma_all_from_self(ws: Seq<WordView>)
    ensures
        all_from(ws, ws),
{
    assert forall|i: int| 0 <= i < ws.len() implies #[trigger] from(ws, ws[i]) by {
        assert(descends(ws[i], ws[i]));
    }
}

proof fn lemma_fallen_from(ws: Seq<WordView>, bottom: u16)
    requires
        forall|i: int| 0 <= i < ws.len() ==> #[trigger] ws[i].row <= bottom,
    ensures
        all_from(ws, fallen(ws, bottom)),
        fallen(ws, bottom).len() <= ws.len(),
    decreases ws.len(),
{
    if ws.len() > 0 {
        let rest = ws.drop_last();
        lemma_fallen_from(rest, bottom);
        let f = fallen(ws, bottom);
        let fr = fallen(rest, bottom);
        assert(f == match fall_one(bottom)(ws.last()) {
            Some(s) => fr + seq![s],
            None => fr,
        });
        assert forall|i: int| 0 <= i < f.len() implies #[trigger] from(ws, f[i]) by {
            if i < fr.len() {
                assert(f[i] == fr[i]);
                assert(from(rest, fr[i]));
                let j = choose|j: int| 0 <= j < rest.len() && #[trigger] descends(rest[j], fr[i]);
                assert(rest[j] == ws[j]);
                assert(descends(ws[j], f[i]));
            } else {
                assert(descends(ws[ws.len() - 1], f[i]));
            }
        }
    }
}

proof fn lemma_acted_from(g: GameView, a: Action)
    ensures
        all_from(g.words, acted(g, a).words),
        acted(g, a).words.len() <= g.words.len(),
        acted(g, a).health == g.health,
        acted(g, a).rows == g.rows,
{
    lemma_all_from_self(g.words);
    if a == Action::Submit {
        let key = entry_key(g.input);
        if exists|k: int| first_match(g.words, key, k) {
            let k = choose|k: int| first_match(g.words, key, k);
            let ws = g.words.remove(k);
            assert forall|i: int| 0 <= i < ws.len() implies #[trigger] from(g.words, ws[i]) by {
                if i < k {
                    assert(descends(g.words[i], ws[i]));
                } else {
                    assert(descends(g.words[i + 1], ws[i]));
                }
            }
        }
    }
}

proof fn lemma_before_spawn(g: GameView, event: Option<KeyEvent>)
    requires
        in_bounds(g),
    ensures
        all_from(g.words, fallen_state(g, event).words),
        fallen_state(g, event).words.len() <= g.words.len(),
        fallen_state(g, event).health <= g.health,
{
    let a = match event {
        Some(e) => acted(g, action_of(e)),
        None => g,
    };
    match event {
        Some(e) => lemma_acted_from(g, action_of(e)),
        None => lemma_all_from_self(g.words),
    }
    assert(all_from(g.words, a.words));
    if a.fall_cnt >= FALL_FRAMES {
        assert forall|i: int| 0 <= i < a.words.len() implies #[trigger] a.words[i].row
            <= bottom_row(a) by {
            assert(from(g.words, a.words[i]));
            let j = choose|j: int| 0 <= j < g.words.len() && #[trigger] descends(g.words[j], a.words[i]);
            assert(g.words[j].row <= bottom_row(g));
        }
        lemma_fallen_from(a.words, bottom_row(a));
        lemma_all_from_trans(g.words, a.words, fallen(a.words, bottom_row(a)));
    }
}

/// Across a frame, a falling word keeps its text and its column, and its
/// row never goes up; the one word that is not a later state of a word
/// falling before is the one spawned on the top row.
pub proof fn lemma_frame_columns_fixed(g: GameView, event: Option<KeyEvent>, next: GameView)
    requires
        in_bounds(g),
        frame(g, event, next),
    ensures
        forall|i: int|
            0 <= i < next.words.len() ==> from(g.words, #[trigger] next.words[i]) || (i
                == next.words.len() - 1 && next.words[i].row == 0 && next.words.len()
                == fallen_state(g, event).words.len() + 1),
{
    lemma_before_spawn(g, event);
    let fell = fallen_state(g, event);
    assert forall|i: int| 0 <= i < next.words.len() implies from(g.words, #[trigger] next.words[i])
        || (i == next.words.len() - 1 && next.words[i].row == 0 && next.words.len()
        == fell.words.len() + 1) by {
        if i < fell.words.len() {
            if fell.words.len() < MAX_WORDS_IN_FRAME {
                assert(next.words[i] == next.words.drop_last()[i]);
            }
            assert(next.words[i] == fell.words[i]);
            assert(from(g.words, fell.words[i]));
        }
    }
}

/// Health falls by exactly the number of words that escape on the frame's
/// fall tick, and by nothing on other frames; it never rises.
pub proof fn lemma_frame_health(g: GameView, event: Option<KeyEvent>, next: GameView)
    requires
        in_bounds(g),
        frame(g, event, next),
    ensures
        ({
            let a = match event {
                Some(e) => acted(g, action_of(e)),
                None => g,
            };
            next.health == g.health - if a.fall_cnt >= FALL_FRAMES {
                escapees(a.words, bottom_row(a)).len() as int
            } else {
                0
            }
        }),
        next.health <= g.health,
{
    match event {
        Some(e) => lemma_acted_from(g, action_of(e)),
        None => {},
    }
}

/// The score goes up by exactly one on a submit that matches a falling word,
/// and stays as it is on every other action, a submit without a match or of
/// an empty entry included.
pub proof fn lemma_score_step(g: GameView, a: Action)
    ensures
        acted(g, a).score == g.score + if a == Action::Submit && exists|k: int|
            first_match(g.words, entry_key(g.input), k) {
            1int
        } else {
            0
        },
{
}

/// Across a frame the score changes only as the frame's key event changes
/// it.
pub proof fn lemma_frame_score(g: GameView, event: Option<KeyEvent>, next: GameView)
    requires
        frame(g, event, next),
    ensures
        next.score == match event {
            Some(e) => acted(g, action_of(e)).score,
            None => g.score,
        },
{
}

/// The trimmed text of `w` is `key`.
pub open spec fn trim_of_text_is(w: WordView, key: Seq<char>) -> bool {
    trim_of(w.text) == key
}

/// Submitting an entry that equals the trimmed text of exactly one falling
/// word removes that word, leaves the others as they are, wins a point and
/// clears the entry.
pub proof fn lemma_submit_single_match(g: GameView, k: int)
    requires
        0 <= k < g.words.len(),
        trim_of_text_is(g.words[k], entry_key(g.input)),
        forall|j: int|
            0 <= j < g.words.len() && j != k ==> !trim_of_text_is(
                #[trigger] g.words[j],
                entry_key(g.input),
            ),
    ensures
        acted(g, Action::Submit) == (GameView {
            input: seq![],
            words: g.words.remove(k),
            score: g.score + 1,
            ..g
        }),
{
    let key = entry_key(g.input);
    assert(first_match(g.words, key, k));
    let c = choose|c: int| first_match(g.words, key, c);
    assert(c == k);
}

/// Submitting an entry that matches no falling word clears the entry and
/// changes nothing else.
pub proof fn lemma_submit_no_match(g: GameView)
    requires
        forall|j: int| 0 <= j < g.words.len() ==> !trim_of_text_is(
            #[trigger] g.words[j],
            entry_key(g.input),
        ),
    ensures
        acted(g, Action::Submit) == (GameView { input: seq![], ..g }),
{
    assert(!exists|k: int| first_match(g.words, entry_key(g.input), k));
}

/// A frame never leaves more than `MAX_WORDS_IN_FRAME` words falling, and
/// spawns only when fewer were falling.
pub proof fn lemma_frame_cap(g: GameView, event: Option<KeyEvent>, next: GameView)
    requires
        in_bounds(g),
        frame(g, event, next),
    ensures
        next.words.len() <= MAX_WORDS_IN_FRAME,
        next.words.len() > fallen_state(g, event).words.len() ==> fallen_state(
            g,
            event,
        ).words.len() < MAX_WORDS_IN_FRAME,
{
    lemma_before_spawn(g, event);
}

} // verus!
