use word_rain::game::Game;
use word_rain::input::{on_key, Action, Key, KeyEvent};

fn game_with(words: &[(&str, u16)]) -> Game {
    let pool: Vec<String> = words.iter().map(|(t, _)| t.to_string()).collect();
    let mut g = Game::new(pool, 80, 24);
    g.intro();
    for (i, (_, col)) in words.iter().enumerate() {
        g.spawn_with(i, &vec![*col]);
    }
    g
}

#[test]
fn key_presses_map_to_actions() {
    let p = |code| on_key(KeyEvent { code, press: true });
    assert_eq!(p(Key::Char('q')), Action::Append('q'));
    assert_eq!(p(Key::Backspace), Action::Backspace);
    assert_eq!(p(Key::Enter), Action::Submit);
    assert_eq!(p(Key::Esc), Action::Quit);
    assert_eq!(p(Key::Other), Action::Ignore);
}

#[test]
fn key_releases_are_ignored() {
    for code in [Key::Char('a'), Key::Backspace, Key::Enter, Key::Esc, Key::Other] {
        assert_eq!(on_key(KeyEvent { code, press: false }), Action::Ignore);
    }
}

#[test]
fn submit_is_case_insensitive_and_trimmed() {
    let mut g = game_with(&[("dog", 0), ("cat", 20)]);
    g.input = "  CaT ".to_string();
    g.check_validity_of_input();
    assert_eq!(g.score, 1);
    assert_eq!(g.c_words.len(), 1);
    assert_eq!(g.c_words[0].text, "dog");
    assert_eq!(g.c_words[0].pos, (0, 0));
}

#[test]
fn stored_text_is_trimmed_too() {
    let mut g = game_with(&[(" owl ", 5)]);
    g.input = "owl".to_string();
    g.check_validity_of_input();
    assert_eq!(g.score, 1);
    assert!(g.c_words.is_empty());
}

#[test]
fn no_match_changes_nothing() {
    let mut g = game_with(&[("dog", 0), ("cat", 20)]);
    g.input = "cow".to_string();
    g.check_validity_of_input();
    assert_eq!(g.score, 0);
    assert_eq!(g.c_words.len(), 2);
}

#[test]
fn empty_submit_clears_and_changes_nothing() {
    let mut g = game_with(&[("dog", 0)]);
    g.apply(Action::Submit);
    assert_eq!(g.score, 0);
    assert_eq!(g.c_words.len(), 1);
    assert_eq!(g.input, "");
}

#[test]
fn duplicate_words_lose_only_the_first() {
    let mut g = game_with(&[("cat", 0), ("cat", 30)]);
    g.remove_match("cat");
    assert_eq!(g.score, 1);
    assert_eq!(g.c_words.len(), 1);
    assert_eq!(g.c_words[0].pos, (30, 0));
}

#[test]
fn non_matching_submit_clears_entry_only() {
    let mut g = game_with(&[("dog", 0)]);
    g.apply(Action::Append('x'));
    g.apply(Action::Submit);
    assert_eq!(g.input, "");
    assert_eq!(g.score, 0);
    assert_eq!(g.c_words.len(), 1);
}

#[test]
fn backspace_removes_last_char() {
    let mut g = game_with(&[("dog", 0)]);
    g.apply(Action::Backspace);
    assert_eq!(g.input, "");
    g.apply(Action::Append('a'));
    g.apply(Action::Append('é'));
    g.apply(Action::Backspace);
    assert_eq!(g.input, "a");
}

#[test]
fn quit_action_sets_flag_and_keeps_entry() {
    let mut g = game_with(&[("dog", 0)]);
    g.apply(Action::Append('d'));
    g.apply(Action::Quit);
    assert!(g.quit);
    assert_eq!(g.input, "d");
}
