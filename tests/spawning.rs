use word_rain::game::Game;
use word_rain::words::{advance, pick_column, span_is_free, Word};

fn word(text: &str, col: u16, row: u16) -> Word {
    Word { text: text.to_string(), pos: (col, row) }
}

#[test]
fn touching_spans_are_free() {
    let ws = vec![word("hello", 10, 0)];
    assert!(span_is_free(&ws, 15, 3));
    assert!(span_is_free(&ws, 7, 3));
    assert!(!span_is_free(&ws, 8, 3));
    assert!(!span_is_free(&ws, 14, 3));
    assert!(!span_is_free(&ws, 11, 1));
}

#[test]
fn first_clear_draw_is_taken() {
    let ws = vec![word("hello", 10, 0)];
    assert_eq!(pick_column(&ws, 3, &vec![12, 8, 20, 30]), 20);
}

#[test]
fn empty_field_takes_first_draw() {
    assert_eq!(pick_column(&vec![], 3, &vec![44, 2]), 44);
}

#[test]
fn no_clear_draw_falls_back_to_zero() {
    let ws = vec![word("hello", 10, 0)];
    assert_eq!(pick_column(&ws, 3, &vec![12, 9, 11]), 0);
    assert_eq!(pick_column(&ws, 3, &vec![]), 0);
}

#[test]
fn only_the_first_hundred_draws_count() {
    let ws = vec![word("hello", 10, 0)];
    let mut draws = vec![12u16; 100];
    draws.push(40);
    assert_eq!(pick_column(&ws, 3, &draws), 0);
    draws[99] = 41;
    assert_eq!(pick_column(&ws, 3, &draws), 41);
}

#[test]
fn random_spawns_stay_clear_or_fall_back() {
    for _ in 0..200 {
        let mut g = Game::new(vec!["abcdefghij".to_string(), "xy".to_string()], 24, 10);
        g.gen_word();
        g.gen_word();
        g.gen_word();
        assert_eq!(g.c_words.len(), 3);
        for i in 0..3 {
            let w = &g.c_words[i];
            let len = w.text.chars().count() as u16;
            assert_eq!(w.pos.1, 0);
            assert!(w.pos.0 + len <= 24);
            let clear = g.c_words[..i].iter().all(|o| {
                let olen = o.text.chars().count() as u16;
                w.pos.0 + len <= o.pos.0 || w.pos.0 >= o.pos.0 + olen
            });
            assert!(clear || w.pos.0 == 0);
        }
    }
}

#[test]
fn wide_word_spawns_at_zero() {
    let mut g = Game::new(vec!["abcdefghijkl".to_string()], 8, 10);
    g.gen_word();
    assert_eq!(g.c_words[0].pos, (0, 0));
}

#[test]
fn advance_moves_down_and_drops_escapees() {
    let mut ws = vec![word("a", 0, 21), word("bb", 5, 5), word("ccc", 9, 0)];
    let escaped = advance(&mut ws, 21);
    assert_eq!(escaped, 1);
    assert_eq!(ws, vec![word("bb", 5, 6), word("ccc", 9, 1)]);
}

#[test]
fn advance_drops_every_escapee_at_once() {
    let mut ws = vec![word("a", 0, 7), word("bb", 5, 7), word("ccc", 9, 3)];
    assert_eq!(advance(&mut ws, 7), 2);
    assert_eq!(ws, vec![word("ccc", 9, 4)]);
}

#[test]
fn fall_ticks_once_per_thirty_one_frames() {
    let mut g = Game::new(vec!["cat".to_string()], 80, 24);
    g.intro();
    g.spawn_with(0, &vec![1]);
    for _ in 0..30 {
        g.fall();
    }
    assert_eq!(g.c_words[0].pos.1, 0);
    assert_eq!(g.fallspeed_cnt, 30);
    g.fall();
    assert_eq!(g.c_words[0].pos.1, 1);
    assert_eq!(g.fallspeed_cnt, 0);
}
