use wordlet::evaluate::{evaluate, process_invalid_guess};
use wordlet::lifecycle::{check_guess, new_game, outcome_status};
use wordlet::record::{decode_game, decode_match, decode_record, parse_index, parse_status};
use wordlet::text::{chars_of, same_text};
use wordlet::types::{
    CharacterMatchResult, CharacterMatchStatus, CustomError, Game, Guess, GuessStatus, MAX_GUESSES,
};
use wordlet::words::{choose_random_index, is_catalog_word, pick_word, word_at, WORD_COUNT, WORD_LENGTH};

use CharacterMatchStatus::{Invalid, NotPresent, PresentAtCorrectPlace, PresentAtIncorrectPlace};

fn game_with(word: &str, guesses: usize) -> Game {
    let mut history = Vec::new();
    for _ in 0..guesses {
        history.push(vec![CharacterMatchResult { index: 0, status: NotPresent }]);
    }
    Game { user_id: String::from("player"), word: String::from(word), guesses: history }
}

fn guess(text: &str) -> Guess {
    Guess { guess: String::from(text) }
}

fn statuses(rs: &[CharacterMatchResult]) -> Vec<CharacterMatchStatus> {
    rs.iter().map(|r| r.status).collect()
}

#[test]
fn evaluate_gives_one_result_per_position() {
    let (rs, _) = evaluate("apple", "piano");
    assert_eq!(rs.len(), 5);
    for (i, r) in rs.iter().enumerate() {
        assert_eq!(r.index, i);
    }
}

#[test]
fn evaluate_exact_guess_is_all_correct() {
    let (rs, won) = evaluate("apple", "apple");
    assert!(won);
    assert_eq!(statuses(&rs), vec![PresentAtCorrectPlace; 5]);
    assert_eq!(outcome_status(2, won), GuessStatus::PlayerWon);
}

#[test]
fn evaluate_disjoint_guess_is_all_absent() {
    let (rs, won) = evaluate("apple", "night");
    assert!(!won);
    assert_eq!(statuses(&rs), vec![NotPresent; 5]);
}

#[test]
fn evaluate_crane_against_crate() {
    let (rs, won) = evaluate("crane", "crate");
    assert!(!won);
    assert_eq!(
        statuses(&rs),
        vec![PresentAtCorrectPlace, PresentAtCorrectPlace, PresentAtCorrectPlace, NotPresent, PresentAtCorrectPlace]
    );
}

#[test]
fn evaluate_misplaced_letters() {
    let (rs, _) = evaluate("mango", "lemon");
    assert_eq!(
        statuses(&rs),
        vec![NotPresent, NotPresent, PresentAtIncorrectPlace, PresentAtIncorrectPlace, PresentAtIncorrectPlace]
    );
}

#[test]
fn evaluate_repeated_letters_are_not_used_up() {
    // The secret has one 'e'; both misplaced 'e's of the guess count.
    let (rs, _) = evaluate("crane", "eerie");
    assert_eq!(
        statuses(&rs),
        vec![PresentAtIncorrectPlace, PresentAtIncorrectPlace, PresentAtIncorrectPlace, NotPresent, PresentAtCorrectPlace]
    );
}

#[test]
fn check_guess_scenario_crane_crate_evaluated() {
    let mut game = game_with("crane", 0);
    let r = check_guess(&mut game, &guess("crate"));
    assert_eq!(r.status, GuessStatus::Evaluated);
    assert_eq!(
        statuses(&r.place_matches),
        vec![PresentAtCorrectPlace, PresentAtCorrectPlace, PresentAtCorrectPlace, NotPresent, PresentAtCorrectPlace]
    );
    assert_eq!(game.guesses.len(), 1);
    assert_eq!(game.guesses[0], r.place_matches);
}

#[test]
fn check_guess_scenario_exact_word_wins() {
    let mut game = game_with("apple", 0);
    let r = check_guess(&mut game, &guess("apple"));
    assert_eq!(r.status, GuessStatus::PlayerWon);
    assert_eq!(statuses(&r.place_matches), vec![PresentAtCorrectPlace; 5]);
    assert_eq!(game.guesses.len(), 1);
}

#[test]
fn check_guess_scenario_unknown_word_is_invalid() {
    let mut game = game_with("apple", 2);
    let r = check_guess(&mut game, &guess("zzzzz"));
    assert_eq!(r.status, GuessStatus::Invalid);
    assert_eq!(statuses(&r.place_matches), vec![Invalid; 5]);
    for (i, m) in r.place_matches.iter().enumerate() {
        assert_eq!(m.index, i);
    }
    assert_eq!(game.guesses.len(), 2);
}

#[test]
fn check_guess_invalid_guess_of_other_length() {
    let mut game = game_with("apple", 0);
    let r = check_guess(&mut game, &guess("ab"));
    assert_eq!(r.status, GuessStatus::Invalid);
    assert_eq!(statuses(&r.place_matches), vec![Invalid; 2]);
    assert_eq!(game.guesses.len(), 0);
}

#[test]
fn check_guess_scenario_sixth_guess_is_game_over() {
    let mut game = game_with("apple", MAX_GUESSES);
    let r = check_guess(&mut game, &guess("crane"));
    assert_eq!(r.status, GuessStatus::GameOver);
    assert!(r.place_matches.is_empty());
    assert_eq!(game.guesses.len(), MAX_GUESSES);
}

#[test]
fn check_guess_fifth_guess_without_win_ends_game() {
    let mut game = game_with("apple", MAX_GUESSES - 1);
    let r = check_guess(&mut game, &guess("crane"));
    assert_eq!(r.status, GuessStatus::GameOver);
    assert_eq!(r.place_matches.len(), 5);
    assert_eq!(game.guesses.len(), MAX_GUESSES);
}

#[test]
fn check_guess_fifth_guess_can_still_win() {
    let mut game = game_with("apple", MAX_GUESSES - 1);
    let r = check_guess(&mut game, &guess("apple"));
    assert_eq!(r.status, GuessStatus::PlayerWon);
}

#[test]
fn five_accepted_guesses_then_game_over() {
    let mut game = new_game(String::from("p1"), 0);
    assert_eq!(game.word, "apple");
    for w in ["crane", "brave", "zzzzz", "grape", "eagle", "flame"] {
        let r = check_guess(&mut game, &guess(w));
        assert_ne!(r.status, GuessStatus::PlayerWon);
    }
    assert_eq!(game.guesses.len(), MAX_GUESSES);
    let r = check_guess(&mut game, &guess("stone"));
    assert_eq!(r.status, GuessStatus::GameOver);
    assert!(r.place_matches.is_empty());
    assert_eq!(game.guesses.len(), MAX_GUESSES);
}

#[test]
fn outcome_status_values() {
    assert_eq!(outcome_status(0, false), GuessStatus::Evaluated);
    assert_eq!(outcome_status(3, false), GuessStatus::Evaluated);
    assert_eq!(outcome_status(4, false), GuessStatus::GameOver);
    assert_eq!(outcome_status(4, true), GuessStatus::PlayerWon);
}

#[test]
fn process_invalid_guess_counts_characters() {
    let r = process_invalid_guess(&guess("héllo"));
    assert_eq!(r.status, GuessStatus::Invalid);
    assert_eq!(r.place_matches.len(), 5);
    let r = process_invalid_guess(&guess(""));
    assert!(r.place_matches.is_empty());
}

#[test]
fn catalog_membership_is_exact() {
    assert!(is_catalog_word("apple"));
    assert!(is_catalog_word("zebra"));
    assert!(!is_catalog_word("Apple"));
    assert!(!is_catalog_word("zzzzz"));
    assert!(!is_catalog_word("appl"));
    assert!(!is_catalog_word(""));
    for i in 0..WORD_COUNT {
        assert_eq!(word_at(i).chars().count(), WORD_LENGTH);
        assert!(is_catalog_word(word_at(i)));
    }
}

#[test]
fn random_index_reduces_seed() {
    assert_eq!(choose_random_index(0), 0);
    assert_eq!(choose_random_index(25), 25 % WORD_COUNT);
    assert_eq!(choose_random_index(u32::MAX), u32::MAX as usize % WORD_COUNT);
    assert_eq!(pick_word(2), "crane");
}

#[test]
fn new_game_starts_empty() {
    let g = new_game(String::from("alice"), 3);
    assert_eq!(g.user_id, "alice");
    assert_eq!(g.word, "crate");
    assert!(g.guesses.is_empty());
}

#[test]
fn status_labels_round_trip() {
    for s in [PresentAtCorrectPlace, PresentAtIncorrectPlace, NotPresent, Invalid] {
        assert_eq!(parse_status(s.label()), Some(s));
    }
    assert_eq!(NotPresent.label(), "NotPresent");
    assert_eq!(parse_status("notpresent"), None);
    assert_eq!(parse_status(""), None);
}

#[test]
fn parse_index_values() {
    assert_eq!(parse_index("0"), Some(0));
    assert_eq!(parse_index("4"), Some(4));
    assert_eq!(parse_index("0042"), Some(42));
    assert_eq!(parse_index(""), None);
    assert_eq!(parse_index("4a"), None);
    assert_eq!(parse_index("-1"), None);
    assert_eq!(parse_index(&usize::MAX.to_string()), Some(usize::MAX));
    assert_eq!(parse_index("99999999999999999999999"), None);
}

#[test]
fn decode_match_values() {
    assert_eq!(
        decode_match("3", "PresentAtIncorrectPlace"),
        Some(CharacterMatchResult { index: 3, status: PresentAtIncorrectPlace })
    );
    assert_eq!(decode_match("x", "Invalid"), None);
    assert_eq!(decode_match("1", "Bogus"), None);
}

fn stored(rs: &[CharacterMatchResult]) -> Vec<(String, String)> {
    rs.iter().map(|r| (r.index.to_string(), String::from(r.status.label()))).collect()
}

#[test]
fn decode_game_reads_back_stored_game() {
    let mut game = game_with("crane", 0);
    check_guess(&mut game, &guess("crate"));
    check_guess(&mut game, &guess("brave"));
    let raw: Vec<Vec<(String, String)>> = game.guesses.iter().map(|g| stored(g)).collect();
    let first = decode_game(String::from("player"), String::from("crane"), &raw).unwrap();
    let second = decode_game(String::from("player"), String::from("crane"), &raw).unwrap();
    assert_eq!(first.guesses, game.guesses);
    assert_eq!(first.user_id, second.user_id);
    assert_eq!(first.word, second.word);
    assert_eq!(first.guesses, second.guesses);
}

#[test]
fn decode_game_refuses_corrupt_records() {
    let bad = vec![vec![(String::from("0"), String::from("Nope"))]];
    assert!(decode_game(String::from("p"), String::from("crane"), &bad).is_none());
    assert!(decode_game(String::from("p"), String::from("cranes"), &Vec::new()).is_none());
    let too_many: Vec<Vec<(String, String)>> = (0..6).map(|_| Vec::new()).collect();
    assert!(decode_game(String::from("p"), String::from("crane"), &too_many).is_none());
    assert!(decode_record(&bad[0]).is_none());
    assert_eq!(decode_record(&Vec::new()), Some(Vec::new()));
}

#[test]
fn error_messages() {
    assert_eq!(CustomError::InvalidQuery.message(), "Invalid query params");
    assert_eq!(CustomError::DBError.message(), "Failed to query DB");
}

#[test]
fn text_helpers() {
    assert!(same_text("abc", "abc"));
    assert!(!same_text("abc", "abd"));
    assert!(!same_text("abc", "ab"));
    assert_eq!(chars_of("héllo"), vec!['h', 'é', 'l', 'l', 'o']);
}
