use vstd::prelude::*;
use crate::text::chars_of;
use crate::types::{CharacterMatchResult, CharacterMatchStatus, GuessResult, GuessStatus, Guess};

verus! {

/// The secret word `w` has the character `c` at some position other than `i`.
pub open spec fn occurs_elsewhere(w: Seq<char>, c: char, i: int) -> bool {
    exists|j: int| 0 <= j < w.len() && j != i && w[j] == c
}

/// The score of position `i` of guess `g` against secret word `w`. A
/// character found elsewhere in `w` counts as misplaced however often it
/// occurs in the guess: occurrences of `w` already matched are not used up.
pub open spec fn status_at(w: Seq<char>, g: Seq<char>, i: int) -> CharacterMatchStatus {
    if g[i] == w[i] {
        CharacterMatchStatus::PresentAtCorrectPlace
    } else if occurs_elsewhere(w, g[i], i) {
        CharacterMatchStatus::PresentAtIncorrectPlace
    } else {
        CharacterMatchStatus::NotPresent
    }
}

/// `rs` is the score of guess `g` against `w`: one result per character of
/// `g`, in order, each carrying its own position.
pub open spec fn is_evaluation(w: Seq<char>, g: Seq<char>, rs: Seq<CharacterMatchResult>) -> bool {
    &&& rs.len() == g.len()
    &&& forall|i: int| 0 <= i < g.len() ==> #[trigger] rs[i].index == i
    &&& forall|i: int| 0 <= i < g.len() ==> #[trigger] rs[i].status == status_at(w, g, i)
}

/// Every result is a correct placement.
pub open spec fn all_correct(rs: Seq<CharacterMatchResult>) -> bool {
    forall|i: int| 0 <= i < rs.len() ==> #[trigger] rs[i].status
        == CharacterMatchStatus::PresentAtCorrectPlace
}

/// `rs` marks every one of `n` positions as refused.
pub open spec fn is_invalid_marking(n: nat, rs: Seq<CharacterMatchResult>) -> bool {
    &&& rs.len() == n
    &&& forall|i: int| 0 <= i < n ==> #[trigger] rs[i].index == i
    &&& forall|i: int| 0 <= i < n ==> #[trigger] rs[i].status == CharacterMatchStatus::Invalid
}

/// Scores `guess` against `secret`, position by position, and tells whether
/// every position is a correct placement.
pub fn evaluate(secret: &str, guess: &str) -> (r: (Vec<CharacterMatchResult>, bool))
    requires
        secret@.len() == guess@.len(),
    ensures
        is_evaluation(secret@, guess@, r.0@),
        r.1 == all_correct(r.0@),
{
    let w = chars_of(secret);
    let g = chars_of(guess);
    let n = g.len();
    let mut results: Vec<CharacterMatchResult> = Vec::new();
    let mut won = true;
    let mut i: usize = 0;
    while i < n
        invariant
            w@ == secret@,
            g@ == guess@,
            n == g@.len(),
            w@.len() == n,
            i <= n,
            results@.len() == i,
            forall|k: int| 0 <= k < i ==> #[trigger] results@[k].index == k,
            forall|k: int| 0 <= k < i ==> #[trigger] results@[k].status == status_at(w@, g@, k),
            won == all_correct(results@),
        decreases n - i,
    {
        let c = g[i];
        let status;
        if c == w[i] {
            status = CharacterMatchStatus::PresentAtCorrectPlace;
        } else {
            let mut found = false;
            let mut j: usize = 0;
            while j < n && !found
                invariant
                    n == w@.len(),
                    i < n,
                    j <= n,
                    found ==> occurs_elsewhere(w@, c, i as int),
                    !found ==> forall|k: int| 0 <= k < j && k != i ==> w@[k] != c,
                decreases n - j + if found { 0int } else { 1int },
            {
                if i != j && c == w[j] {
                    found = true;
                } else {
                    j += 1;
                }
            }
            if found {
                status = CharacterMatchStatus::PresentAtIncorrectPlace;
            } else {
                status = CharacterMatchStatus::NotPresent;
            }
            won = false;
        }
        assert(status == status_at(w@, g@, i as int));
        let ghost before = results@;
        results.push(CharacterMatchResult { index: i, status });
        assert(results@ =~= before.push(CharacterMatchResult { index: i, status }));
        assert(won == all_correct(results@)) by {
            if won {
                assert forall|k: int| 0 <= k < results@.len() implies #[trigger] results@[k].status
                    == CharacterMatchStatus::PresentAtCorrectPlace by {
                    if k < i {
                        assert(results@[k] == before[k]);
                    }
                }
            } else if status != CharacterMatchStatus::PresentAtCorrectPlace {
                assert(results@[i as int].status != CharacterMatchStatus::PresentAtCorrectPlace);
            } else {
                let k = choose|k: int| 0 <= k < before.len() && before[k].status
                    != CharacterMatchStatus::PresentAtCorrectPlace;
                assert(results@[k] == before[k]);
            }
        }
        i += 1;
    }
    (results, won)
}

/// The answer to a refused guess: status `Invalid` and one `Invalid` mark
/// per character of the guess.
pub fn process_invalid_guess(guess: &Guess) -> (r: GuessResult)
    ensures
        r.status == GuessStatus::Invalid,
        is_invalid_marking(guess.guess@.len(), r.place_matches@),
{
    let length = guess.guess.as_str().unicode_len();
    let mut char_match_results: Vec<CharacterMatchResult> = Vec::new();
    let mut i: usize = 0;
    while i < length
        invariant
            length == guess.guess@.len(),
            i <= length,
            is_invalid_marking(i as nat, char_match_results@),
        decreases length - i,
    {
        char_match_results.push(CharacterMatchResult { index: i, status: CharacterMatchStatus::Invalid });
        i += 1;
    }
    GuessResult { status: GuessStatus::Invalid, place_matches: char_match_results }
}

/// An evaluation has one result per character of the guess, and the result
/// at each position carries that position.
pub proof fn lemma_one_result_per_position(w: Seq<char>, g: Seq<char>, rs: Seq<CharacterMatchResult>)
    requires
        w.len() == g.len(),
        is_evaluation(w, g, rs),
    ensures
        rs.len() == g.len(),
        forall|i: int| 0 <= i < rs.len() ==> #[trigger] rs[i].index == i,
{
}

/// A guess scores a correct placement at every position exactly when it is
/// the secret word.
pub proof fn lemma_all_correct_iff_equal(w: Seq<char>, g: Seq<char>, rs: Seq<CharacterMatchResult>)
    requires
        w.len() == g.len(),
        is_evaluation(w, g, rs),
    ensures
        all_correct(rs) <==> g == w,
{
    if all_correct(rs) {
        assert forall|i: int| 0 <= i < g.len() implies g[i] == w[i] by {
            assert(rs[i].status == status_at(w, g, i));
        }
        assert(g =~= w);
    }
}

/// A guess that shares no character with the secret word scores every
/// position as not present.
pub proof fn lemma_disjoint_all_absent(w: Seq<char>, g: Seq<char>, rs: Seq<CharacterMatchResult>)
    requires
        w.len() == g.len(),
        is_evaluation(w, g, rs),
        forall|i: int, j: int| 0 <= i < g.len() && 0 <= j < w.len() ==> g[i] != w[j],
    ensures
        forall|i: int| 0 <= i < rs.len() ==> #[trigger] rs[i].status == CharacterMatchStatus::NotPresent,
{
    assert forall|i: int| 0 <= i < rs.len() implies #[trigger] rs[i].status
        == CharacterMatchStatus::NotPresent by {
        assert(rs[i].status == status_at(w, g, i));
        assert(g[i] != w[i]);
        assert(!occurs_elsewhere(w, g[i], i));
    }
}

} // verus!
