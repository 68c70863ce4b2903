use word_rain::game::{Game, Phase};
use word_rain::input::{on_key, Key, KeyEvent};
use word_rain::render::Cmd;

fn press(code: Key) -> Option<KeyEvent> {
    Some(KeyEvent { code, press: true })
}

fn playing_cat_game() -> Game {
    let mut g = Game::new(vec!["cat".to_string()], 80, 24);
    g.intro();
    g
}

#[test]
fn first_frame_spawns_cat_on_top_row() {
    let mut g = playing_cat_game();
    let out = g.game_loop(None);
    assert_eq!(g.c_words.len(), 1);
    assert_eq!(g.c_words[0].text, "cat");
    assert_eq!(g.c_words[0].pos.1, 0);
    assert!(g.c_words[0].pos.0 <= 77);
    // 22 blanked rows, no word yet, then the status bar
    assert_eq!(out.len(), 2 * 22 + 8 + 3 * 6);
    assert_eq!(out[0], Cmd::MoveTo(0, 0));
    assert_eq!(out[1], Cmd::Write(" ".repeat(80)));
    assert_eq!(out[42], Cmd::MoveTo(0, 21));
}

#[test]
fn escaping_word_costs_one_health() {
    let mut g = playing_cat_game();
    g.spawn_with(0, &vec![40]);
    assert_eq!(g.c_words[0].pos, (40, 0));
    let mut frames: usize = 0;
    let mut lowest: u16 = 0;
    while g.health == 3 && frames < 2000 {
        g.fall();
        frames += 1;
        if let Some(w) = g.c_words.first() {
            assert_eq!(w.pos.0, 40);
            assert!(w.pos.1 >= lowest);
            lowest = w.pos.1;
        }
    }
    assert_eq!(lowest, 21);
    assert_eq!(frames, 22 * 31);
    assert_eq!(g.health, 2);
    assert!(g.c_words.is_empty());
}

#[test]
fn typing_cat_and_submitting_scores() {
    let mut g = playing_cat_game();
    g.spawn_with(0, &vec![10]);
    g.c_words[0].pos.1 = 5;
    for c in "cat".chars() {
        g.apply(on_key(KeyEvent { code: Key::Char(c), press: true }));
    }
    assert_eq!(g.input, "cat");
    g.apply(on_key(KeyEvent { code: Key::Enter, press: true }));
    assert_eq!(g.score, 1);
    assert!(g.c_words.is_empty());
    assert_eq!(g.input, "");
}

#[test]
fn losing_all_health_ends_the_game() {
    let mut g = playing_cat_game();
    g.spawn_with(0, &vec![3]);
    g.spawn_with(0, &vec![30]);
    g.spawn_with(0, &vec![60]);
    g.c_words[0].pos.1 = 21;
    g.health = 1;
    g.score = 4;
    g.fallspeed_cnt = 30;
    let out = g.game_loop(None);
    assert_eq!(g.health, 0);
    assert_eq!(g.phase, Phase::Lost);
    assert!(g.is_over());
    assert!(out.contains(&Cmd::ClearAll));
    assert!(out.contains(&Cmd::Write("You lost all your health!".to_string())));
    assert!(out.contains(&Cmd::Write("Your final score: 4".to_string())));
    let words_before = g.c_words.len();
    let after = g.game_loop(press(Key::Char('x')));
    assert!(after.is_empty());
    assert_eq!(g.c_words.len(), words_before);
    assert_eq!(g.input, "");
    assert_eq!(g.phase, Phase::Lost);
}

#[test]
fn escape_key_says_goodbye() {
    let mut g = playing_cat_game();
    g.game_loop(None);
    g.score = 2;
    let out = g.game_loop(press(Key::Esc));
    assert!(g.quit);
    assert_eq!(g.phase, Phase::Quit);
    assert_eq!(g.health, 3);
    let n = out.len();
    assert_eq!(out[n - 5], Cmd::ClearAll);
    assert_eq!(out[n - 4], Cmd::MoveTo(36, 12));
    assert_eq!(out[n - 3], Cmd::Write("Goodbye!".to_string()));
    assert_eq!(out[n - 2], Cmd::MoveTo(31, 13));
    assert_eq!(out[n - 1], Cmd::Write("Your final score: 2".to_string()));
    assert!(g.game_loop(None).is_empty());
}

#[test]
fn intro_screen_then_play() {
    let mut g = Game::new(vec!["cat".to_string()], 80, 24);
    assert_eq!(g.phase, Phase::Intro);
    assert!(g.game_loop(None).is_empty());
    let out = g.intro();
    assert_eq!(g.phase, Phase::Playing);
    assert_eq!(
        out,
        vec![
            Cmd::ClearAll,
            Cmd::MoveTo(19, 12),
            Cmd::Write("Type the falling words as fast as you can!".to_string()),
            Cmd::MoveTo(10, 13),
            Cmd::Write("Get as many points as possible without depleting your health!".to_string()),
        ]
    );
}

#[test]
fn many_frames_keep_the_rules() {
    let words: Vec<String> =
        ["apple", "kiwi", "banana", "fig", "cherry"].iter().map(|s| s.to_string()).collect();
    let mut g = Game::new(words, 40, 12);
    g.intro();
    let mut prev_health = g.health;
    for frame in 0..3000 {
        let before: Vec<(String, u16, u16)> =
            g.c_words.iter().map(|w| (w.text.clone(), w.pos.0, w.pos.1)).collect();
        g.game_loop(None);
        assert!(g.c_words.len() <= 3, "frame {frame}");
        assert!(g.health <= prev_health);
        prev_health = g.health;
        for w in &g.c_words {
            let len = w.text.chars().count() as u16;
            assert!(w.pos.0 <= 40u16.saturating_sub(len));
            if w.pos.1 > 0 {
                assert!(before.iter().any(|b| b.0 == w.text && b.1 == w.pos.0 && b.2 < w.pos.1
                    || b.0 == w.text && b.1 == w.pos.0 && b.2 == w.pos.1));
            }
        }
        if g.is_over() {
            break;
        }
    }
    assert_eq!(g.phase, Phase::Lost);
    assert!(g.health <= 0);
}
