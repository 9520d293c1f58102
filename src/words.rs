use vstd::prelude::*;
use crate::text::same_text;

verus! {

/// Number of characters in every word of the catalog.
pub const WORD_LENGTH: usize = 5;

/// Number of words in the catalog.
pub const WORD_COUNT: usize = 24;

/// The fixed list of words that may be secret words and that a guess must
/// belong to.
pub open spec fn catalog() -> Seq<Seq<char>> {
    seq![
        "apple"@, "brave"@, "crane"@, "crate"@, "dance"@, "eagle"@,
        "flame"@, "grape"@, "house"@, "image"@, "joker"@, "knife"@,
        "lemon"@, "mango"@, "night"@, "ocean"@, "piano"@, "queen"@,
        "river"@, "stone"@, "tiger"@, "unity"@, "water"@, "zebra"@,
    ]
}

/// Every word of the catalog has `WORD_LENGTH` characters.
pub proof fn lemma_catalog_word_length()
    ensures
        catalog().len() == WORD_COUNT,
        forall|k: int| 0 <= k < WORD_COUNT ==> #[trigger] catalog()[k].len() == WORD_LENGTH,
{
    reveal_strlit("apple");
    reveal_strlit("brave");
    reveal_strlit("crane");
    reveal_strlit("crate");
    reveal_strlit("dance");
    reveal_strlit("eagle");
    reveal_strlit("flame");
    reveal_strlit("grape");
    reveal_strlit("house");
    reveal_strlit("image");
    reveal_strlit("joker");
    reveal_strlit("knife");
    reveal_strlit("lemon");
    reveal_strlit("mango");
    reveal_strlit("night");
    reveal_strlit("ocean");
    reveal_strlit("piano");
    reveal_strlit("queen");
    reveal_strlit("river");
    reveal_strlit("stone");
    reveal_strlit("tiger");
    reveal_strlit("unity");
    reveal_strlit("water");
    reveal_strlit("zebra");
}

/// The word at position `i` of the catalog.
pub fn word_at(i: usize) -> (r: &'static str)
    requires
        i < WORD_COUNT,
    ensures
        r@ == catalog()[i as int],
{
    if i == 0 { "apple" }
    else if i == 1 { "brave" }
    else if i == 2 { "crane" }
    else if i == 3 { "crate" }
    else if i == 4 { "dance" }
    else if i == 5 { "eagle" }
    else if i == 6 { "flame" }
    else if i == 7 { "grape" }
    else if i == 8 { "house" }
    else if i == 9 { "image" }
    else if i == 10 { "joker" }
    else if i == 11 { "knife" }
    else if i == 12 { "lemon" }
    else if i == 13 { "mango" }
    else if i == 14 { "night" }
    else if i == 15 { "ocean" }
    else if i == 16 { "piano" }
    else if i == 17 { "queen" }
    else if i == 18 { "river" }
    else if i == 19 { "stone" }
    else if i == 20 { "tiger" }
    else if i == 21 { "unity" }
    else if i == 22 { "water" }
    else { "zebra" }
}

/// Exact, case-sensitive membership of `word` in the catalog.
pub fn is_catalog_word(word: &str) -> (r: bool)
    ensures
        r == catalog().contains(word@),
{
    let mut i: usize = 0;
    while i < WORD_COUNT
        invariant
            i <= WORD_COUNT,
            catalog().len() == WORD_COUNT,
            forall|k: int| 0 <= k < i ==> catalog()[k] != word@,
        decreases WORD_COUNT - i,
    {
        if same_text(word_at(i), word) {
            assert(catalog()[i as int] == word@);
            return true;
        }
        i += 1;
    }
    false
}

/// The catalog position picked by `seed`: the seed reduced modulo the
/// catalog's size. Any source of a number will do (the sub-second part of
/// the clock, a pseudo-random generator); every seed gives a valid position.
pub fn choose_random_index(seed: u32) -> (r: usize)
    ensures
        r == seed as nat % WORD_COUNT as nat,
        r < WORD_COUNT,
{
    (seed as usize) % WORD_COUNT
}

/// The catalog word picked by `seed`.
pub fn pick_word(seed: u32) -> (r: &'static str)
    ensures
        r@ == catalog()[(seed as nat % WORD_COUNT as nat) as int],
        r@.len() == WORD_LENGTH,
{
    proof {
        lemma_catalog_word_length();
    }
    word_at(choose_random_index(seed))
}

} // verus!
