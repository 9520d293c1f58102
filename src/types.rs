use vstd::prelude::*;
use crate::words::WORD_LENGTH;

verus! {

/// Most guesses a game accepts; the attempt after the last one reports the
/// game as over.
pub const MAX_GUESSES: usize = 5;

/// How one character of a guess compares with the secret word.
#[derive(Clone, Copy, Debug, PartialEq, Eq, Structural)]
pub enum CharacterMatchStatus {
    /// The secret word has this character at this position.
    PresentAtCorrectPlace,
    /// The secret word has this character at some other position.
    PresentAtIncorrectPlace,
    /// The secret word does not have this character.
    NotPresent,
    /// The guess was refused, so nothing was compared.
    Invalid,
}

/// The score of the character at `index` of a guess.
#[derive(Clone, Copy, Debug, PartialEq, Eq, Structural)]
pub struct CharacterMatchResult {
    pub index: usize,
    pub status: CharacterMatchStatus,
}

/// What a guess request comes to.
#[derive(Clone, Copy, Debug, PartialEq, Eq, Structural)]
pub enum GuessStatus {
    /// The guess was scored and the game goes on.
    Evaluated,
    /// The guess is not a catalog word; nothing was recorded.
    Invalid,
    /// No more guesses are allowed.
    GameOver,
    /// The guess is the secret word.
    PlayerWon,
}

/// The answer to one guess: its status and, unless the game was already over,
/// one score per character of the guess.
#[derive(Debug)]
pub struct GuessResult {
    pub status: GuessStatus,
    pub place_matches: Vec<CharacterMatchResult>,
}

/// A player's current game: the secret word and the scores of every guess
/// accepted so far, oldest first.
#[derive(Debug)]
pub struct Game {
    pub user_id: String,
    pub word: String,
    pub guesses: Vec<Vec<CharacterMatchResult>>,
}

impl Game {
    /// A game as it may be stored: a secret word of `WORD_LENGTH`
    /// characters and at most `MAX_GUESSES` recorded guesses.
    pub open spec fn wf(&self) -> bool {
        &&& self.word@.len() == WORD_LENGTH
        &&& self.guesses@.len() <= MAX_GUESSES
    }
}

/// A guess submitted by a player.
#[derive(Debug)]
pub struct Guess {
    pub guess: String,
}

/// Errors reported to a client of the game service.
#[derive(Clone, Copy, Debug, PartialEq, Eq, Structural)]
pub enum CustomError {
    InvalidQuery,
    DBError,
}

/// The text shown for an error.
pub open spec fn spec_error_message(e: CustomError) -> Seq<char> {
    match e {
        CustomError::InvalidQuery => "Invalid query params"@,
        CustomError::DBError => "Failed to query DB"@,
    }
}

impl CustomError {
    /// The text shown for this error.
    pub fn message(&self) -> (r: &'static str)
        ensures
            r@ == spec_error_message(*self),
    {
        match self {
            CustomError::InvalidQuery => "Invalid query params",
            CustomError::DBError => "Failed to query DB",
        }
    }
}

} // verus!
