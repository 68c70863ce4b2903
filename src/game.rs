//! The game itself: its state, what one frame does to it, and the
//! Intro, Playing and game-over phases.

use vstd::prelude::*;
use crate::input::{action_of, on_key, Action, KeyEvent};
use crate::render::{
    cmd_views, message_cmds, status_cmds, blank_rows, word_cmds, clear_words, write_message,
    write_ui, write_words, Cmd, CmdView,
};
use crate::rng::random_below;
use crate::text::{decimal, lower_of, pop_char, push_char, push_decimal, push_str, to_lower, trim, trim_of};
use crate::words::{
    advance, escapees, fallen, max_col, pick_column, picked, span_free, views, above, Word,
    WordView, SPAWN_ATTEMPTS,
};

verus! {

/// Frames per second the game is paced at.
pub const FPS: u64 = 30;

/// Frames between two fall ticks: a word falls one row per this many frames
/// plus one.
pub const FALL_FRAMES: u32 = 30;

/// The most words that fall at once.
pub const MAX_WORDS_IN_FRAME: usize = 3;

/// The health a game starts with.
pub const START_HEALTH: i32 = 3;

/// Where the game stands.
#[derive(Clone, Copy, Debug, PartialEq, Eq, Structural)]
pub enum Phase {
    Intro,
    Playing,
    Lost,
    Quit,
}

/// The state of one game.
pub struct Game {
    /// What the player has typed since the last submit.
    pub input: String,
    /// The words a new falling word is drawn from.
    pub u_words: Vec<String>,
    /// The words falling now, in the order they appeared.
    pub c_words: Vec<Word>,
    /// Words matched so far.
    pub score: u64,
    /// The screen's width in columns.
    pub columns: u16,
    /// The screen's height in rows.
    pub rows: u16,
    /// Whether the player asked to leave.
    pub quit: bool,
    /// Frames since the last fall tick.
    pub fallspeed_cnt: u32,
    /// Words that may still escape before the game is lost.
    pub health: i32,
    pub phase: Phase,
}

/// What a game is, mathematically.
pub struct GameView {
    pub input: Seq<char>,
    pub pool: Seq<Seq<char>>,
    pub words: Seq<WordView>,
    pub score: nat,
    pub columns: u16,
    pub rows: u16,
    pub quit: bool,
    pub fall_cnt: u32,
    pub health: int,
    pub phase: Phase,
}

/// The character sequences of a list of strings.
pub open spec fn texts(v: Seq<String>) -> Seq<Seq<char>> {
    v.map_values(|s: String| s@)
}

impl View for Game {
    type V = GameView;

    open spec fn view(&self) -> GameView {
        GameView {
            input: self.input@,
            pool: texts(self.u_words@),
            words: views(self.c_words@),
            score: self.score as nat,
            columns: self.columns,
            rows: self.rows,
            quit: self.quit,
            fall_cnt: self.fallspeed_cnt,
            health: self.health as int,
            phase: self.phase,
        }
    }
}

/// The row on which a word escapes.
pub open spec fn bottom_row(g: GameView) -> u16 {
    (g.rows - 3) as u16
}

/// The bounds a game keeps: a screen large enough for the status bar, a
/// word source, at most `MAX_WORDS_IN_FRAME` words all on or above the
/// bottom row, and health within its range.
pub open spec fn in_bounds(g: GameView) -> bool {
    &&& g.columns >= 8
    &&& g.rows >= 5
    &&& g.pool.len() > 0
    &&& g.words.len() <= MAX_WORDS_IN_FRAME
    &&& above(g.words, bottom_row(g))
    &&& g.fall_cnt <= FALL_FRAMES
    &&& -(MAX_WORDS_IN_FRAME as int) <= g.health <= START_HEALTH
}

/// The invariant of a game: its bounds, and a game in play only while health
/// lasts and no quit was asked.
pub open spec fn well_formed(g: GameView) -> bool {
    &&& in_bounds(g)
    &&& g.phase == Phase::Playing ==> g.health > 0 && !g.quit
}

/// Index `k` holds the first word whose trimmed text is `key`.
pub open spec fn first_match(ws: Seq<WordView>, key: Seq<char>, k: int) -> bool {
    &&& 0 <= k < ws.len()
    &&& trim_of(ws[k].text) == key
    &&& forall|j: int| 0 <= j < k ==> trim_of(#[trigger] ws[j].text) != key
}

/// The game after `key` was matched against the falling words: the first
/// word that matches is gone and a point is won; without a match nothing
/// changes.
pub open spec fn matched(g: GameView, key: Seq<char>) -> GameView {
    if exists|k: int| first_match(g.words, key, k) {
        let k = choose|k: int| first_match(g.words, key, k);
        GameView { words: g.words.remove(k), score: g.score + 1, ..g }
    } else {
        g
    }
}

/// The entry as it is compared: lowercased, then trimmed.
pub open spec fn entry_key(input: Seq<char>) -> Seq<char> {
    trim_of(lower_of(input))
}

proof fn lemma_matched_bounds(g: GameView, key: Seq<char>)
    requires
        in_bounds(g),
    ensures
        in_bounds(matched(g, key)),
        matched(g, key).health == g.health,
{
    if exists|k: int| first_match(g.words, key, k) {
        let k = choose|k: int| first_match(g.words, key, k);
        let ws = g.words.remove(k);
        assert forall|i: int| 0 <= i < ws.len() implies #[trigger] ws[i].row <= bottom_row(g) by {
            if i < k {
                assert(ws[i] == g.words[i]);
            } else {
                assert(ws[i] == g.words[i + 1]);
            }
        }
    }
}

/// The game after an action.
pub open spec fn acted(g: GameView, a: Action) -> GameView {
    match a {
        Action::Append(c) => GameView { input: g.input.push(c), ..g },
        Action::Backspace => GameView {
            input: if g.input.len() == 0 {
                g.input
            } else {
                g.input.drop_last()
            },
            ..g
        },
        Action::Submit => GameView { input: seq![], ..matched(g, entry_key(g.input)) },
        Action::Quit => GameView { quit: true, ..g },
        Action::Ignore => g,
    }
}

/// The game after one frame of the fall cadence: on every
/// `FALL_FRAMES + 1`-th frame the words fall one row, those on the bottom row
/// escape, and each escape costs one point of health.
pub open spec fn ticked(g: GameView) -> GameView {
    if g.fall_cnt >= FALL_FRAMES {
        GameView {
            words: fallen(g.words, bottom_row(g)),
            health: g.health - escapees(g.words, bottom_row(g)).len(),
            fall_cnt: 0,
            ..g
        }
    } else {
        GameView { fall_cnt: (g.fall_cnt + 1) as u32, ..g }
    }
}

/// `ws` is `g`'s words with one new word from the pool added on the top row,
/// at a column where it fits, clear of every other word unless it stands
/// at column 0.
pub open spec fn spawn_of(g: GameView, ws: Seq<WordView>) -> bool {
    &&& ws.len() == g.words.len() + 1
    &&& ws.drop_last() == g.words
    &&& ws.last().row == 0
    &&& g.pool.contains(ws.last().text)
    &&& ws.last().col <= max_col(g.columns, ws.last().text.len())
    &&& (span_free(g.words, ws.last().col as int, ws.last().text.len() as int) || ws.last().col
        == 0)
}

/// The game after a frame's key event and fall cadence, before a spawn.
pub open spec fn fallen_state(g: GameView, event: Option<KeyEvent>) -> GameView {
    ticked(
        match event {
            Some(e) => acted(g, action_of(e)),
            None => g,
        },
    )
}

/// `next` is what one frame of play makes of `g` on `event`: the key acts,
/// the fall cadence advances, a word spawns while fewer than
/// `MAX_WORDS_IN_FRAME` fall, and the phase settles.
pub open spec fn frame(g: GameView, event: Option<KeyEvent>, next: GameView) -> bool {
    let fell = fallen_state(g, event);
    &&& next == settled(GameView { words: next.words, ..fell })
    &&& fell.words.len() < MAX_WORDS_IN_FRAME ==> spawn_of(fell, next.words)
    &&& fell.words.len() >= MAX_WORDS_IN_FRAME ==> next.words == fell.words
}

/// The phase at the end of a frame.
pub open spec fn settled(g: GameView) -> GameView {
    if g.health <= 0 {
        GameView { phase: Phase::Lost, ..g }
    } else if g.quit {
        GameView { phase: Phase::Quit, ..g }
    } else {
        g
    }
}

/// The first line of the closing screen.
pub open spec fn farewell(lost: bool) -> Seq<char> {
    if lost {
        "You lost all your health!"@
    } else {
        "Goodbye!"@
    }
}

/// The second line of the closing screen.
pub open spec fn final_score_line(score: nat) -> Seq<char> {
    "Your final score: "@ + decimal(score)
}

/// The closing screen.
pub open spec fn closing_cmds(g: GameView, lost: bool) -> Seq<CmdView> {
    message_cmds(farewell(lost), final_score_line(g.score), g.columns, g.rows)
}

/// The health marks drawn: none once health is gone.
pub open spec fn shown_health(h: int) -> nat {
    if h > 0 {
        h as nat
    } else {
        0
    }
}

/// What a frame draws: the blanked play field, the words after the fall
/// tick, the status bar, and the closing screen where the game ended.
pub open spec fn frame_cmds(fell: GameView, end: GameView) -> Seq<CmdView> {
    blank_rows(fell.columns, bottom_row(fell) as nat + 1) + word_cmds(fell.words) + status_cmds(
        end.input,
        end.score,
        shown_health(end.health),
        end.columns,
        end.rows,
    ) + if end.phase == Phase::Lost {
        closing_cmds(end, true)
    } else if end.phase == Phase::Quit {
        closing_cmds(end, false)
    } else {
        seq![]
    }
}

impl Game {
    /// The invariant of the game.
    pub open spec fn wf(&self) -> bool {
        well_formed(self@)
    }

    /// A game on a screen `columns` wide and `rows` high that draws its
    /// words from `u_words`: no words falling, no input, score 0, full
    /// health, in the intro phase.
    pub fn new(u_words: Vec<String>, columns: u16, rows: u16) -> (g: Game)
        requires
            u_words.len() > 0,
            columns >= 8,
            rows >= 5,
        ensures
            g.wf(),
            g@ == (GameView {
                input: seq![],
                pool: texts(u_words@),
                words: seq![],
                score: 0,
                columns,
                rows,
                quit: false,
                fall_cnt: 0,
                health: START_HEALTH as int,
                phase: Phase::Intro,
            }),
    {
        let g = Game {
            input: String::new(),
            u_words,
            c_words: Vec::new(),
            score: 0,
            columns,
            rows,
            quit: false,
            fallspeed_cnt: 0,
            health: START_HEALTH,
            phase: Phase::Intro,
        };
        assert(g@.words =~= seq![]);
        g
    }

    /// Matches an entry that is already lowercased and trimmed against the
    /// falling words: the first word whose trimmed text equals it is removed
    /// and the score goes up by one; without a match nothing changes.
    pub fn remove_match(&mut self, key: &str)
        requires
            old(self).score < u64::MAX,
        ensures
            final(self)@ == matched(old(self)@, key@),
    {
        let ghost g = self@;
        let wanted = key.to_owned();
        let mut i: usize = 0;
        while i < self.c_words.len()
            invariant
                self@ == g,
                g == old(self)@,
                i <= self.c_words.len(),
                self.score < u64::MAX,
                wanted@ == key@,
                forall|j: int| 0 <= j < i ==> trim_of(#[trigger] g.words[j].text) != key@,
            decreases self.c_words.len() - i,
        {
            let t = trim(self.c_words[i].text.as_str());
            assert(g.words[i as int].text == self.c_words@[i as int].text@);
            if t.to_owned() == wanted {
                assert(first_match(g.words, key@, i as int));
                proof {
                    let k = choose|k: int| first_match(g.words, key@, k);
                    if k < i {
                    } else if k > i {
                        assert(trim_of(g.words[i as int].text) != key@);
                    }
                    assert(k == i);
                    assert(matched(g, key@) == (GameView {
                        words: g.words.remove(i as int),
                        score: g.score + 1,
                        ..g
                    }));
                }
                self.c_words.remove(i);
                self.score = self.score + 1;
                assert(self@.words =~= g.words.remove(i as int));
                return;
            }
            i = i + 1;
        }
        assert(!exists|k: int| first_match(g.words, key@, k));
    }

    /// Submits the entry: lowercased and trimmed, it is matched against the
    /// trimmed text of each falling word, and the first word that matches
    /// is removed for a point.
    pub fn check_validity_of_input(&mut self)
        requires
            old(self).score < u64::MAX,
        ensures
            final(self)@ == matched(old(self)@, entry_key(old(self)@.input)),
    {
        let lowered = to_lower(self.input.as_str());
        let key = trim(lowered.as_str());
        self.remove_match(key);
    }

    /// Carries out an action on the entry, the falling words or the quit
    /// flag.
    pub fn apply(&mut self, a: Action)
        requires
            old(self).score < u64::MAX,
        ensures
            final(self)@ == acted(old(self)@, a),
            in_bounds(old(self)@) ==> in_bounds(final(self)@),
    {
        proof {
            if in_bounds(self@) {
                lemma_matched_bounds(self@, entry_key(self@.input));
            }
        }
        match a {
            Action::Append(c) => push_char(&mut self.input, c),
            Action::Backspace => {
                let _ = pop_char(&mut self.input);
            },
            Action::Submit => {
                self.check_validity_of_input();
                self.input = String::new();
            },
            Action::Quit => {
                self.quit = true;
            },
            Action::Ignore => {},
        }
    }

    /// Advances the fall cadence by one frame; on a fall tick every word
    /// drops a row and each word on the bottom row escapes for one point of
    /// health.
    pub fn fall(&mut self)
        requires
            in_bounds(old(self)@),
            old(self)@.health > 0,
        ensures
            final(self)@ == ticked(old(self)@),
            in_bounds(final(self)@),
    {
        if self.fallspeed_cnt >= FALL_FRAMES {
            let escaped = advance(&mut self.c_words, self.rows - 3);
            self.health = self.health - escaped as i32;
            self.fallspeed_cnt = 0;
        } else {
            self.fallspeed_cnt = self.fallspeed_cnt + 1;
        }
    }

    /// Spawns word `word_i` of the pool on the top row, at the column that
    /// `pick_column` takes from `draws`.
    pub fn spawn_with(&mut self, word_i: usize, draws: &Vec<u16>)
        requires
            word_i < old(self).u_words.len(),
        ensures
            final(self)@ == (GameView { words: final(self)@.words, ..old(self)@ }),
            final(self)@.words.len() == old(self)@.words.len() + 1,
            final(self)@.words.drop_last() == old(self)@.words,
            final(self)@.words.last().text == old(self)@.pool[word_i as int],
            final(self)@.words.last().row == 0,
            picked(
                old(self)@.words,
                old(self)@.pool[word_i as int].len(),
                draws@,
                final(self)@.words.last().col,
            ),
    {
        let text = self.u_words[word_i].clone();
        let len = text.as_str().unicode_len();
        let col = pick_column(&self.c_words, len, draws);
        self.c_words.push(Word { text, pos: (col, 0) });
        assert(self@.words.drop_last() =~= old(self)@.words);
    }

    /// Spawns a word drawn at random from the pool on the top row, at a
    /// column drawn at random where it fits. Up to `SPAWN_ATTEMPTS` columns
    /// are drawn; the first whose span is clear of every falling word is
    /// taken, and column 0 where none is.
    pub fn gen_word(&mut self)
        requires
            old(self).u_words.len() > 0,
        ensures
            final(self)@ == (GameView { words: final(self)@.words, ..old(self)@ }),
            spawn_of(old(self)@, final(self)@.words),
    {
        let word_i = random_below(self.u_words.len());
        let len = self.u_words[word_i].as_str().unicode_len();
        let top: u16 = if (self.columns as usize) > len {
            self.columns - len as u16
        } else {
            0
        };
        let mut draws: Vec<u16> = Vec::new();
        while draws.len() < SPAWN_ATTEMPTS
            invariant
                forall|j: int| 0 <= j < draws@.len() ==> #[trigger] draws@[j] <= top,
            decreases SPAWN_ATTEMPTS - draws.len(),
        {
            let c = random_below(top as usize + 1);
            draws.push(c as u16);
        }
        let ghost g = self@;
        assert(g.pool[word_i as int] == self.u_words@[word_i as int]@);
        self.spawn_with(word_i, &draws);
        assert(self@.words.last().text == g.pool[word_i as int]);
        assert(g.pool.contains(self@.words.last().text));
    }

    /// Moves from the intro to play, and returns the intro screen: two
    /// lines centred on a cleared screen.
    pub fn intro(&mut self) -> (out: Vec<Cmd>)
        ensures
            final(self)@ == (GameView {
                phase: if old(self)@.phase == Phase::Intro {
                    Phase::Playing
                } else {
                    old(self)@.phase
                },
                ..old(self)@
            }),
            cmd_views(out@) == message_cmds(
                "Type the falling words as fast as you can!"@,
                "Get as many points as possible without depleting your health!"@,
                old(self).columns,
                old(self).rows,
            ),
    {
        let mut out: Vec<Cmd> = Vec::new();
        let mut l1 = String::new();
        push_str(&mut l1, "Type the falling words as fast as you can!");
        let mut l2 = String::new();
        push_str(&mut l2, "Get as many points as possible without depleting your health!");
        assert(cmd_views(out@) =~= seq![]);
        write_message(&mut out, l1, l2, self.columns, self.rows);
        assert(cmd_views(out@) =~= message_cmds(
            "Type the falling words as fast as you can!"@,
            "Get as many points as possible without depleting your health!"@,
            self.columns,
            self.rows,
        ));
        if self.phase == Phase::Intro {
            self.phase = Phase::Playing;
        }
        out
    }

    /// Appends the closing screen to `out`: a cleared screen with the
    /// reason the game ended and the final score, centred.
    pub fn quit(&self, out: &mut Vec<Cmd>, user_lost: bool)
        ensures
            cmd_views(final(out)@) == cmd_views(old(out)@) + closing_cmds(self@, user_lost),
    {
        let mut l1 = String::new();
        if user_lost {
            push_str(&mut l1, "You lost all your health!");
        } else {
            push_str(&mut l1, "Goodbye!");
        }
        let mut l2 = String::new();
        push_str(&mut l2, "Your final score: ");
        push_decimal(&mut l2, self.score);
        write_message(out, l1, l2, self.columns, self.rows);
    }

    /// Runs one frame of play: the key event, if any, acts; the fall
    /// cadence advances; a word spawns while fewer than
    /// `MAX_WORDS_IN_FRAME` fall; the frame is drawn; and the game ends,
    /// lost once health is gone, or on the player's request. Outside play
    /// nothing happens and nothing is drawn.
    pub fn game_loop(&mut self, event: Option<KeyEvent>) -> (out: Vec<Cmd>)
        requires
            old(self).wf(),
            old(self).score < u64::MAX,
        ensures
            final(self).wf(),
            old(self)@.phase != Phase::Playing ==> final(self)@ == old(self)@ && out@.len() == 0,
            old(self)@.phase == Phase::Playing ==> frame(old(self)@, event, final(self)@),
            old(self)@.phase == Phase::Playing ==> cmd_views(out@) == frame_cmds(
                fallen_state(old(self)@, event),
                final(self)@,
            ),
    {
        let mut out: Vec<Cmd> = Vec::new();
        if self.phase != Phase::Playing {
            return out;
        }
        if let Some(e) = event {
            self.apply(on_key(e));
        }
        self.fall();
        let ghost fell = self@;
        assert(cmd_views(out@) =~= seq![]);
        clear_words(&mut out, self.columns, self.rows - 3);
        write_words(&mut out, &self.c_words);
        if self.c_words.len() < MAX_WORDS_IN_FRAME {
            self.gen_word();
            proof {
                let ws = self@.words;
                assert forall|i: int| 0 <= i < ws.len() implies #[trigger] ws[i].row <= bottom_row(
                    self@,
                ) by {
                    if i < ws.len() - 1 {
                        assert(ws[i] == ws.drop_last()[i]);
                    }
                }
            }
        }
        let shown: u32 = if self.health > 0 {
            self.health as u32
        } else {
            0
        };
        write_ui(&mut out, self.input.as_str(), self.score, shown, self.columns, self.rows);
        if self.health <= 0 {
            self.phase = Phase::Lost;
            self.quit(&mut out, true);
        } else if self.quit {
            self.phase = Phase::Quit;
            self.quit(&mut out, false);
        }
        out
    }

    /// Whether the game has ended, lost or quit.
    pub fn is_over(&self) -> (r: bool)
        ensures
            r == (self@.phase == Phase::Lost || self@.phase == Phase::Quit),
    {
        self.phase == Phase::Lost || self.phase == Phase::Quit
    }
}

} // verus!
