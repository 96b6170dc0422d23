//! Fuzzy search.
use vstd::prelude::*;
use vstd::utf8::encode_utf8;
use crate::text::chars_of;
use nucleo_matcher::pattern::{CaseMatching, Normalization, Pattern};
use nucleo_matcher::{Config, Matcher, Utf32Str};

verus! {

/// The longest query whose score is sure to fit in 32 bits. The matcher makes at
/// most two characters of one, and each of them adds at most 36.
pub const MAX_QUERY: usize = 59652323;

/// The longest word whose score is sure to fit in 16 bits. Its first character
/// adds at most 36, and each further one at most 26.
pub const MAX_WORD: usize = 2520;

/// How well `nucleo_matcher` finds a text to match a query, if it matches.
pub uninterp spec fn match_score(query: Seq<char>, text: Seq<char>) -> Option<u32>;

/// Whether a character of a query stands between two words: a space that no
/// backslash stands before.
pub open spec fn separates(query: Seq<char>, i: int) -> bool {
    query[i] == ' ' && (i == 0 || query[i - 1] != '\\')
}

/// Whether a part of a query lies within one word.
pub open spec fn in_one_word(query: Seq<char>, from: int, to: int) -> bool {
    0 <= from <= to <= query.len() && forall|k: int|
        from <= k < to ==> !#[trigger] separates(query, k)
}

/// How long the matcher can make a part of a query: it can double a backslash.
pub open spec fn weight(query: Seq<char>, from: int, to: int) -> int
    decreases to - from,
{
    if to <= from {
        0
    } else {
        weight(query, from, to - 1) + if query[to - 1] == '\\' {
            2int
        } else {
            1int
        }
    }
}

/// Whether no word of a query is too long for its score.
pub open spec fn words_fit(query: Seq<char>) -> bool {
    forall|from: int, to: int| #[trigger]
        in_one_word(query, from, to) ==> weight(query, from, to) <= MAX_WORD
}

/// Whether a character can be a variant of a Latin letter to the matcher, in one
/// of its cases. A word without such characters matches the variants of its
/// letters too.
pub open spec fn is_latin_variant(c: char) -> bool {
    ||| '\u{c0}' <= c <= '\u{36f}'
    ||| '\u{1d00}' <= c <= '\u{1ef9}'
    ||| '\u{2071}' <= c <= '\u{2184}'
    ||| '\u{2c62}' <= c <= '\u{2c7f}'
    ||| '\u{a78d}' <= c <= '\u{a7c5}'
}

/// Whether a lowercase character has a case folding: to the matcher it is then
/// not always the same letter as the one that it folds to.
pub open spec fn folds_from_lower(c: char) -> bool {
    ||| c == '\u{b5}' || c == '\u{17f}' || c == '\u{345}' || c == '\u{3c2}'
    ||| c == '\u{3d0}' || c == '\u{3d1}' || c == '\u{3d5}' || c == '\u{3d6}'
    ||| c == '\u{3f0}' || c == '\u{3f1}' || c == '\u{3f5}'
    ||| '\u{13f8}' <= c <= '\u{13fd}'
    ||| '\u{1c80}' <= c <= '\u{1c88}'
    ||| c == '\u{1e9b}' || c == '\u{1fbe}'
    ||| '\u{ab70}' <= c <= '\u{abbf}'
}

/// Whether the matcher compares the letters of a text in the same way everywhere:
/// it does for words that match variants too, and for texts without lowercase
/// characters that fold.
pub open spec fn folds_alike(query: Seq<char>, text: Seq<char>) -> bool {
    (forall|i: int| 0 <= i < query.len() ==> !is_latin_variant(#[trigger] query[i])) || (forall|
        i: int,
    |
        0 <= i < text.len() ==> !folds_from_lower(#[trigger] text[i]))
}

/// Whether the matcher's numbers hold the score of a text for a query. No word
/// matches that is longer than the text, so that long words do no harm to a short
/// text.
pub open spec fn score_fits(query: Seq<char>, text: Seq<char>) -> bool {
    &&& query.len() <= MAX_QUERY
    &&& encode_utf8(text).len() <= u32::MAX
    &&& encode_utf8(text).len() * MAX_WORD <= usize::MAX
    &&& text.len() <= MAX_WORD || words_fit(query)
}

/// Whether the matcher can score a text for a query.
pub open spec fn can_score(query: Seq<char>, text: Seq<char>) -> bool {
    score_fits(query, text) && folds_alike(query, text)
}

/// Calls `nucleo_matcher::pattern::Pattern::score`, on the pattern that
/// `Pattern::parse` makes of the query, without regard to case and with smart
/// normalization, and on a new `Matcher` with the default configuration.
///
/// The score depends on the query and the text alone. The matcher takes texts of
/// up to 2^32 - 1 bytes. It adds up the scores of the words in 32 bits, and counts
/// the score of a word in 16. The product of the lengths of a word and a text is
/// to fit in `usize`. Where a word holds a variant of a Latin letter, the matcher
/// folds some lowercase characters of the text in one place and not in another,
/// and builds with assertions stop there: such texts are left out.
#[verifier::external_body]
fn pattern_score(query: &str, text: &str) -> (score: Option<u32>)
    requires
        can_score(query@, text@),
    ensures
        score == match_score(query@, text@),
{
    let mut matcher = Matcher::new(Config::DEFAULT);
    let pattern = Pattern::parse(query, CaseMatching::Ignore, Normalization::Smart);
    let mut buffer = Vec::new();
    pattern.score(Utf32Str::new(text, &mut buffer), &mut matcher)
}

/// The score of a text for a query. There is none where the matcher cannot be
/// asked for it.
pub open spec fn score_of(query: Seq<char>, text: Seq<char>) -> Option<u32> {
    if can_score(query, text) {
        match_score(query, text)
    } else {
        None
    }
}

proof fn lemma_weight_grows(query: Seq<char>, a: int, b: int, to: int)
    requires
        a <= b,
    ensures
        0 <= weight(query, b, to) <= weight(query, a, to),
    decreases to - a,
{
    if to > a {
        lemma_weight_grows(query, a, b, to - 1);
    }
}

fn check_words(query: &str) -> (fit: bool)
    ensures
        fit == words_fit(query@),
{
    let chars = chars_of(query);
    let mut run: usize = 0;
    let mut i: usize = 0;
    let ghost mut start: int = 0;
    while i < chars.len()
        invariant
            chars@ == query@,
            0 <= start <= i <= chars@.len(),
            run == weight(query@, start, i as int),
            run <= MAX_WORD,
            forall|k: int| start <= k < i ==> !#[trigger] separates(query@, k),
            start == 0 || separates(query@, start - 1),
            forall|from: int, to: int| #[trigger]
                in_one_word(query@, from, to) && to <= i ==> weight(query@, from, to) <= MAX_WORD,
        decreases chars@.len() - i,
    {
        if chars[i] == ' ' && (i == 0 || chars[i - 1] != '\\') {
            assert(separates(query@, i as int));
            run = 0;
            proof {
                start = i + 1;
            }
        } else {
            assert(!separates(query@, i as int));
            let more: usize = if chars[i] == '\\' {
                2
            } else {
                1
            };
            run = run + more;
            assert(run == weight(query@, start, i + 1));
            if run > MAX_WORD {
                assert(in_one_word(query@, start, i + 1));
                return false;
            }
        }
        assert forall|from: int, to: int| #[trigger]
            in_one_word(query@, from, to) && to <= i + 1 implies weight(query@, from, to)
            <= MAX_WORD by {
            if to == i + 1 && from < to {
                assert(!separates(query@, i as int));
                if from < start {
                    assert(!separates(query@, start - 1));
                }
                lemma_weight_grows(query@, start, from, to);
            }
        }
        i = i + 1;
    }
    true
}

fn latin_variant(c: char) -> (yes: bool)
    ensures
        yes == is_latin_variant(c),
{
    '\u{c0}' <= c && c <= '\u{36f}' || '\u{1d00}' <= c && c <= '\u{1ef9}' || '\u{2071}' <= c && c
        <= '\u{2184}' || '\u{2c62}' <= c && c <= '\u{2c7f}' || '\u{a78d}' <= c && c <= '\u{a7c5}'
}

fn lower_folds(c: char) -> (yes: bool)
    ensures
        yes == folds_from_lower(c),
{
    c == '\u{b5}' || c == '\u{17f}' || c == '\u{345}' || c == '\u{3c2}' || c == '\u{3d0}' || c
        == '\u{3d1}' || c == '\u{3d5}' || c == '\u{3d6}' || c == '\u{3f0}' || c == '\u{3f1}' || c
        == '\u{3f5}' || '\u{13f8}' <= c && c <= '\u{13fd}' || '\u{1c80}' <= c && c <= '\u{1c88}'
        || c == '\u{1e9b}' || c == '\u{1fbe}' || '\u{ab70}' <= c && c <= '\u{abbf}'
}

fn check_folding(query: &str, text: &str) -> (alike: bool)
    ensures
        alike == folds_alike(query@, text@),
{
    let letters = chars_of(query);
    let mut variants = false;
    for i in 0..letters.len()
        invariant
            letters@ == query@,
            variants == exists|k: int| 0 <= k < i && is_latin_variant(#[trigger] query@[k]),
    {
        let variant = latin_variant(letters[i]);
        assert(variant == is_latin_variant(query@[i as int]));
        variants = variants || variant;
    }
    if !variants {
        return true;
    }
    let chars = chars_of(text);
    for i in 0..chars.len()
        invariant
            chars@ == text@,
            forall|k: int| 0 <= k < i ==> !folds_from_lower(#[trigger] text@[k]),
            exists|k: int| 0 <= k < query@.len() && is_latin_variant(#[trigger] query@[k]),
    {
        if lower_folds(chars[i]) {
            assert(folds_from_lower(text@[i as int]));
            return false;
        }
    }
    true
}

/// Scores a text for a query.
pub fn fuzzy_score(query: &str, text: &str) -> (score: Option<u32>)
    ensures
        score == score_of(query@, text@),
{
    let limit: u64 = 4294967295;
    let bytes = text.as_bytes().len();
    if query.unicode_len() <= MAX_QUERY && bytes as u64 <= limit && bytes <= usize::MAX / MAX_WORD
        && (text.unicode_len() <= MAX_WORD || check_words(query)) && check_folding(query, text) {
        pattern_score(query, text)
    } else {
        None
    }
}

proof fn lemma_bytes_of_text(text: Seq<char>)
    ensures
        encode_utf8(text).len() <= 4 * text.len(),
    decreases text.len(),
{
    if text.len() > 0 {
        lemma_bytes_of_text(text.drop_first());
    }
}

/// A name of an ordinary length is scored as the matcher scores it, whatever words
/// the query holds, where the letters of both fold alike.
pub proof fn lemma_names_are_scored(query: Seq<char>, text: Seq<char>)
    requires
        query.len() <= MAX_QUERY,
        text.len() <= MAX_WORD,
        folds_alike(query, text),
    ensures
        score_of(query, text) == match_score(query, text),
{
    lemma_bytes_of_text(text);
}

} // verus!
