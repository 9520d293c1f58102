use vstd::prelude::*;
use vstd::string::StrSliceExecFns;
use crate::text::same_text;
use crate::types::{CharacterMatchResult, CharacterMatchStatus, Game, MAX_GUESSES};
use crate::words::WORD_LENGTH;

verus! {

/// The label under which a match status is stored.
pub open spec fn spec_label(s: CharacterMatchStatus) -> Seq<char> {
    match s {
        CharacterMatchStatus::PresentAtCorrectPlace => "PresentAtCorrectPlace"@,
        CharacterMatchStatus::PresentAtIncorrectPlace => "PresentAtIncorrectPlace"@,
        CharacterMatchStatus::NotPresent => "NotPresent"@,
        CharacterMatchStatus::Invalid => "Invalid"@,
    }
}

/// The match status stored under `s`, if `s` is one of the four labels.
pub open spec fn spec_parse_status(s: Seq<char>) -> Option<CharacterMatchStatus> {
    if s == "PresentAtCorrectPlace"@ {
        Some(CharacterMatchStatus::PresentAtCorrectPlace)
    } else if s == "PresentAtIncorrectPlace"@ {
        Some(CharacterMatchStatus::PresentAtIncorrectPlace)
    } else if s == "NotPresent"@ {
        Some(CharacterMatchStatus::NotPresent)
    } else if s == "Invalid"@ {
        Some(CharacterMatchStatus::Invalid)
    } else {
        None
    }
}

impl CharacterMatchStatus {
    /// The label under which this status is stored.
    pub fn label(&self) -> (r: &'static str)
        ensures
            r@ == spec_label(*self),
    {
        match self {
            CharacterMatchStatus::PresentAtCorrectPlace => "PresentAtCorrectPlace",
            CharacterMatchStatus::PresentAtIncorrectPlace => "PresentAtIncorrectPlace",
            CharacterMatchStatus::NotPresent => "NotPresent",
            CharacterMatchStatus::Invalid => "Invalid",
        }
    }
}

/// Reads a stored status label; exact and case-sensitive.
pub fn parse_status(s: &str) -> (r: Option<CharacterMatchStatus>)
    ensures
        r == spec_parse_status(s@),
{
    if same_text(s, "PresentAtCorrectPlace") {
        Some(CharacterMatchStatus::PresentAtCorrectPlace)
    } else if same_text(s, "PresentAtIncorrectPlace") {
        Some(CharacterMatchStatus::PresentAtIncorrectPlace)
    } else if same_text(s, "NotPresent") {
        Some(CharacterMatchStatus::NotPresent)
    } else if same_text(s, "Invalid") {
        Some(CharacterMatchStatus::Invalid)
    } else {
        None
    }
}

/// Reading back the label of a status gives that status.
pub proof fn lemma_label_round_trip(s: CharacterMatchStatus)
    ensures
        spec_parse_status(spec_label(s)) == Some(s),
{
    reveal_strlit("PresentAtCorrectPlace");
    reveal_strlit("PresentAtIncorrectPlace");
    reveal_strlit("NotPresent");
    reveal_strlit("Invalid");
    let a = "PresentAtCorrectPlace"@;
    let b = "PresentAtIncorrectPlace"@;
    let c = "NotPresent"@;
    let d = "Invalid"@;
    assert(a.len() == 21 && b.len() == 23 && c.len() == 10 && d.len() == 7);
    assert(a != b && a != c && a != d && b != c && b != d && c != d);
}

/// `c` is one of the decimal digits `0` to `9`.
pub open spec fn is_digit(c: char) -> bool {
    '0' <= c && c <= '9'
}

/// Every character of `s` is a decimal digit.
pub open spec fn all_digits(s: Seq<char>) -> bool {
    forall|i: int| 0 <= i < s.len() ==> #[trigger] is_digit(s[i])
}

/// The number written in decimal by the digits `s`.
pub open spec fn decimal_value(s: Seq<char>) -> nat
    decreases s.len(),
{
    if s.len() == 0 {
        0
    } else {
        decimal_value(s.drop_last()) * 10 + ((s.last() as u32 - '0' as u32) as nat)
    }
}

/// `s` is a stored position: one or more decimal digits whose value fits a
/// `usize`.
pub open spec fn is_index_text(s: Seq<char>) -> bool {
    &&& s.len() > 0
    &&& all_digits(s)
    &&& decimal_value(s) <= usize::MAX
}

proof fn lemma_prefix_value_le(s: Seq<char>, k: int)
    requires
        all_digits(s),
        0 <= k <= s.len(),
    ensures
        decimal_value(s.subrange(0, k)) <= decimal_value(s),
    decreases s.len() - k,
{
    if k < s.len() {
        lemma_prefix_value_le(s, k + 1);
        assert(s.subrange(0, k + 1).drop_last() =~= s.subrange(0, k));
        assert(is_digit(s[k]));
    } else {
        assert(s.subrange(0, k) =~= s);
    }
}

/// Reads a stored position written in decimal digits.
pub fn parse_index(s: &str) -> (r: Option<usize>)
    ensures
        r is Some <==> is_index_text(s@),
        r is Some ==> r->0 == decimal_value(s@),
{
    let n = s.unicode_len();
    if n == 0 {
        return None;
    }
    let mut acc: usize = 0;
    let mut i: usize = 0;
    while i < n
        invariant
            n == s@.len(),
            i <= n,
            all_digits(s@.subrange(0, i as int)),
            acc == decimal_value(s@.subrange(0, i as int)),
        decreases n - i,
    {
        let c = s.get_char(i);
        if c < '0' || c > '9' {
            assert(!is_digit(s@[i as int]));
            return None;
        }
        let d = (c as u32 - '0' as u32) as usize;
        assert(s@.subrange(0, i + 1).drop_last() =~= s@.subrange(0, i as int));
        if acc > (usize::MAX - d) / 10 {
            proof {
                assert(decimal_value(s@.subrange(0, i + 1)) == acc * 10 + d);
                assert(acc * 10 + d > usize::MAX) by (nonlinear_arith)
                    requires
                        acc > (usize::MAX - d) / 10,
                        d <= 9,
                ;
                if all_digits(s@) {
                    lemma_prefix_value_le(s@, i + 1);
                }
            }
            return None;
        }
        assert(acc * 10 + d <= usize::MAX) by (nonlinear_arith)
            requires
                acc <= (usize::MAX - d) / 10,
                d <= 9,
        ;
        acc = acc * 10 + d;
        i += 1;
        assert(all_digits(s@.subrange(0, i as int)));
    }
    assert(s@.subrange(0, n as int) =~= s@);
    Some(acc)
}

/// The stored match result written as `index_text` and `status_text`.
pub open spec fn spec_decode_match(index_text: Seq<char>, status_text: Seq<char>) -> Option<CharacterMatchResult> {
    if is_index_text(index_text) && spec_parse_status(status_text) is Some {
        Some(CharacterMatchResult {
            index: decimal_value(index_text) as usize,
            status: spec_parse_status(status_text)->0,
        })
    } else {
        None
    }
}

/// Reads one stored match result: a position and a status label.
pub fn decode_match(index_text: &str, status_text: &str) -> (r: Option<CharacterMatchResult>)
    ensures
        r == spec_decode_match(index_text@, status_text@),
{
    match (parse_index(index_text), parse_status(status_text)) {
        (Some(index), Some(status)) => Some(CharacterMatchResult { index, status }),
        _ => None,
    }
}

/// Every stored match result of `raw` can be read.
pub open spec fn record_readable(raw: Seq<(String, String)>) -> bool {
    forall|j: int| 0 <= j < raw.len() ==> (#[trigger] spec_decode_match(raw[j].0@, raw[j].1@)) is Some
}

/// `rec` is what the stored guess `raw` reads as.
pub open spec fn record_reads_as(raw: Seq<(String, String)>, rec: Seq<CharacterMatchResult>) -> bool {
    &&& rec.len() == raw.len()
    &&& forall|j: int| 0 <= j < raw.len() ==> #[trigger] spec_decode_match(raw[j].0@, raw[j].1@) == Some(rec[j])
}

/// Reads one stored guess: a list of (position, status label) pairs.
pub fn decode_record(raw: &Vec<(String, String)>) -> (r: Option<Vec<CharacterMatchResult>>)
    ensures
        r is Some <==> record_readable(raw@),
        r is Some ==> record_reads_as(raw@, r->0@),
{
    let mut rec: Vec<CharacterMatchResult> = Vec::new();
    let mut j: usize = 0;
    while j < raw.len()
        invariant
            j <= raw@.len(),
            record_reads_as(raw@.subrange(0, j as int), rec@),
            forall|k: int| 0 <= k < j ==> (#[trigger] spec_decode_match(raw@[k].0@, raw@[k].1@)) is Some,
        decreases raw@.len() - j,
    {
        match decode_match(raw[j].0.as_str(), raw[j].1.as_str()) {
            Some(m) => {
                rec.push(m);
                j += 1;
            },
            None => {
                return None;
            },
        }
    }
    assert(raw@.subrange(0, raw@.len() as int) =~= raw@);
    Some(rec)
}

/// Reads a stored game back. A stored game that cannot be read (a word of
/// another length, more than `MAX_GUESSES` guesses, a position or label that
/// does not parse) gives `None`, as a missing game does.
pub fn decode_game(user_id: String, word: String, guesses: &Vec<Vec<(String, String)>>) -> (r: Option<Game>)
    ensures
        r is Some <==> {
            &&& word@.len() == WORD_LENGTH
            &&& guesses@.len() <= MAX_GUESSES
            &&& forall|i: int| 0 <= i < guesses@.len() ==> record_readable(#[trigger] guesses@[i]@)
        },
        r is Some ==> {
            let g = r->0;
            &&& g.wf()
            &&& g.user_id == user_id
            &&& g.word == word
            &&& g.guesses@.len() == guesses@.len()
            &&& forall|i: int| 0 <= i < guesses@.len() ==> record_reads_as(#[trigger] guesses@[i]@, g.guesses@[i]@)
        },
{
    if word.as_str().unicode_len() != WORD_LENGTH || guesses.len() > MAX_GUESSES {
        return None;
    }
    let mut records: Vec<Vec<CharacterMatchResult>> = Vec::new();
    let mut i: usize = 0;
    while i < guesses.len()
        invariant
            i <= guesses@.len(),
            records@.len() == i,
            forall|k: int| 0 <= k < i ==> record_readable(#[trigger] guesses@[k]@),
            forall|k: int| 0 <= k < i ==> record_reads_as(#[trigger] guesses@[k]@, records@[k]@),
        decreases guesses@.len() - i,
    {
        match decode_record(&guesses[i]) {
            Some(rec) => {
                records.push(rec);
                i += 1;
            },
            None => {
                return None;
            },
        }
    }
    Some(Game { user_id, word, guesses: records })
}

/// Reading the same stored guesses twice gives the same records: the game
/// read back depends on the stored text alone.
pub proof fn lemma_read_is_repeatable(
    raw: Seq<Vec<(String, String)>>,
    a: Seq<Vec<CharacterMatchResult>>,
    b: Seq<Vec<CharacterMatchResult>>,
)
    requires
        a.len() == raw.len(),
        b.len() == raw.len(),
        forall|i: int| 0 <= i < raw.len() ==> record_reads_as(#[trigger] raw[i]@, a[i]@),
        forall|i: int| 0 <= i < raw.len() ==> record_reads_as(#[trigger] raw[i]@, b[i]@),
    ensures
        forall|i: int| 0 <= i < raw.len() ==> (#[trigger] a[i])@ == b[i]@,
{
    assert forall|i: int| 0 <= i < raw.len() implies (#[trigger] a[i])@ == b[i]@ by {
        assert(record_reads_as(raw[i]@, a[i]@));
        assert(record_reads_as(raw[i]@, b[i]@));
        assert forall|j: int| 0 <= j < a[i]@.len() implies a[i]@[j] == b[i]@[j] by {
            assert(spec_decode_match(raw[i]@[j].0@, raw[i]@[j].1@) == Some(a[i]@[j]));
        }
        assert(a[i]@ =~= b[i]@);
    }
}

} // verus!
