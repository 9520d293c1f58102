use vstd::prelude::*;
use crate::evaluate::{all_correct, evaluate, is_evaluation, is_invalid_marking, lemma_all_correct_iff_equal, process_invalid_guess};
use crate::types::{CharacterMatchResult, Game, Guess, GuessResult, GuessStatus, MAX_GUESSES};
use crate::words::{catalog, is_catalog_word, lemma_catalog_word_length, pick_word, WORD_COUNT};

verus! {

/// The status of an accepted guess, from the number of guesses recorded
/// before it and whether it matched every position.
pub open spec fn spec_outcome_status(history_len: int, won: bool) -> GuessStatus {
    if won {
        GuessStatus::PlayerWon
    } else if history_len == MAX_GUESSES - 1 {
        GuessStatus::GameOver
    } else {
        GuessStatus::Evaluated
    }
}

/// The status of an accepted guess: won if it matched every position, over
/// if it used up the last allowed guess, evaluated otherwise.
pub fn outcome_status(history_len: usize, won: bool) -> (r: GuessStatus)
    ensures
        r == spec_outcome_status(history_len as int, won),
{
    if won {
        GuessStatus::PlayerWon
    } else if history_len == MAX_GUESSES - 1 {
        GuessStatus::GameOver
    } else {
        GuessStatus::Evaluated
    }
}

/// A fresh game for `user_id`: the catalog word picked by `seed` and no
/// guesses yet.
pub fn new_game(user_id: String, seed: u32) -> (g: Game)
    ensures
        g.wf(),
        g.user_id == user_id,
        g.word@ == catalog()[(seed as nat % WORD_COUNT as nat) as int],
        g.guesses@.len() == 0,
{
    let chosen_word = pick_word(seed);
    Game { user_id, word: chosen_word.to_owned(), guesses: Vec::new() }
}

/// A copy of a guess record.
fn copy_record(rs: &Vec<CharacterMatchResult>) -> (r: Vec<CharacterMatchResult>)
    ensures
        r@ == rs@,
{
    let mut r: Vec<CharacterMatchResult> = Vec::new();
    let mut i: usize = 0;
    while i < rs.len()
        invariant
            i <= rs@.len(),
            r@ == rs@.subrange(0, i as int),
        decreases rs@.len() - i,
    {
        r.push(rs[i]);
        i += 1;
        assert(r@ =~= rs@.subrange(0, i as int));
    }
    assert(rs@.subrange(0, rs@.len() as int) =~= rs@);
    r
}

/// Plays `guess` on `game`. A game that already holds `MAX_GUESSES` guesses
/// is over and stays as it is. A guess outside the catalog is refused and
/// not recorded. Any other guess is scored against the secret word and its
/// score is appended to the game's guesses.
pub fn check_guess(game: &mut Game, guess: &Guess) -> (r: GuessResult)
    requires
        old(game).wf(),
    ensures
        final(game).wf(),
        final(game).user_id == old(game).user_id,
        final(game).word == old(game).word,
        old(game).guesses@.len() >= MAX_GUESSES ==> {
            &&& r.status == GuessStatus::GameOver
            &&& r.place_matches@.len() == 0
            &&& final(game).guesses@ == old(game).guesses@
        },
        old(game).guesses@.len() < MAX_GUESSES && !catalog().contains(guess.guess@) ==> {
            &&& r.status == GuessStatus::Invalid
            &&& is_invalid_marking(guess.guess@.len(), r.place_matches@)
            &&& final(game).guesses@ == old(game).guesses@
        },
        old(game).guesses@.len() < MAX_GUESSES && catalog().contains(guess.guess@) ==> {
            &&& is_evaluation(old(game).word@, guess.guess@, r.place_matches@)
            &&& r.status == spec_outcome_status(
                old(game).guesses@.len() as int,
                all_correct(r.place_matches@),
            )
            &&& final(game).guesses@.len() == old(game).guesses@.len() + 1
            &&& final(game).guesses@.drop_last() == old(game).guesses@
            &&& final(game).guesses@.last()@ == r.place_matches@
        },
{
    if game.guesses.len() >= MAX_GUESSES {
        return GuessResult { status: GuessStatus::GameOver, place_matches: Vec::new() };
    }
    if !is_catalog_word(guess.guess.as_str()) {
        return process_invalid_guess(guess);
    }
    proof {
        lemma_catalog_word_length();
        let k = choose|k: int| 0 <= k < catalog().len() && catalog()[k] == guess.guess@;
        assert(catalog()[k].len() == 5);
    }
    let (char_match_results, won) = evaluate(game.word.as_str(), guess.guess.as_str());
    let history_len = game.guesses.len();
    let record = copy_record(&char_match_results);
    game.guesses.push(record);
    assert(game.guesses@.drop_last() =~= old(game).guesses@);
    GuessResult { status: outcome_status(history_len, won), place_matches: char_match_results }
}

/// A guess equal to the secret word matches every position and wins,
/// however many guesses came before it.
pub proof fn lemma_exact_guess_wins(w: Seq<char>, g: Seq<char>, rs: Seq<CharacterMatchResult>, history_len: int)
    requires
        g == w,
        is_evaluation(w, g, rs),
    ensures
        all_correct(rs),
        spec_outcome_status(history_len, all_correct(rs)) == GuessStatus::PlayerWon,
{
    lemma_all_correct_iff_equal(w, g, rs);
}

/// An accepted guess that does not win and is recorded after
/// `MAX_GUESSES - 1` others ends the game.
pub proof fn lemma_last_guess_ends_game(rs: Seq<CharacterMatchResult>)
    requires
        !all_correct(rs),
    ensures
        spec_outcome_status(MAX_GUESSES - 1, all_correct(rs)) == GuessStatus::GameOver,
{
}

} // verus!
