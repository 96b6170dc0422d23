//! Characters and strings: trimming, decimal numbers, ordering and searching.
//!
//! Every string is modelled by its view, a sequence of characters. The
//! executable functions decode a string once into a vector of characters, work
//! on that vector, and encode the result again.
use vstd::prelude::*;

verus! {

/// `String::push` appends one character to the end of a string.
pub assume_specification[ String::push ](s: &mut String, c: char)
    ensures
        final(s)@ == old(s)@.push(c),
;

/// The name of the lower-case form of a text.
pub uninterp spec fn lowercase(text: Seq<char>) -> Seq<char>;

/// The lower-case form of an ASCII character.
pub open spec fn ascii_lower(c: char) -> char {
    if 'A' <= c && c <= 'Z' {
        ((c as u32 + 32) as u32) as char
    } else {
        c
    }
}

/// Calls `str::to_lowercase`.
///
/// The result is a function of the text alone. Of a text that holds nothing but
/// ASCII, it is the text with `A` to `Z` replaced by `a` to `z`.
#[verifier::external_body]
pub(crate) fn to_lowercase(text: &str) -> (lower: String)
    ensures
        lower@ == lowercase(text@),
        vstd::utf8::is_ascii_chars(text@) ==> lower@ == text@.map_values(|c: char| ascii_lower(c)),
{
    text.to_lowercase()
}

/// Decodes a string into its characters.
pub fn chars_of(s: &str) -> (chars: Vec<char>)
    ensures
        chars@ == s@,
{
    let mut out: Vec<char> = Vec::new();
    for c in it: s.chars()
        invariant
            out@ == it.seq().take(it.index()),
            it.seq() == s@,
    {
        out.push(c);
    }
    out
}

/// Encodes the characters `from..to` as a string.
pub fn string_of(chars: &Vec<char>, from: usize, to: usize) -> (s: String)
    requires
        from <= to <= chars@.len(),
    ensures
        s@ == chars@.subrange(from as int, to as int),
{
    let mut out = String::new();
    for i in from..to
        invariant
            from <= to <= chars@.len(),
            out@ == chars@.subrange(from as int, i as int),
    {
        out.push(chars[i]);
        assert(chars@.subrange(from as int, i + 1) =~= chars@.subrange(from as int, i as int).push(
            chars@[i as int],
        ));
    }
    out
}

/// The concatenation of two strings.
pub fn concat(a: &str, b: &str) -> (s: String)
    ensures
        s@ == a@ + b@,
{
    let mut out = a.to_string();
    out.append(b);
    out
}

/// The concatenation of three strings.
pub fn concat3(a: &str, b: &str, c: &str) -> (s: String)
    ensures
        s@ == a@ + b@ + c@,
{
    let mut out = a.to_string();
    out.append(b);
    out.append(c);
    out
}

/// Compares two strings for equality.
pub fn same_text(a: &str, b: &str) -> (same: bool)
    ensures
        same == (a@ == b@),
{
    let left = a.to_string();
    let right = b.to_string();
    left == right
}

// ---------------------------------------------------------------------------
// White space
// ---------------------------------------------------------------------------

/// The characters with the Unicode property `White_Space`.
pub open spec fn is_whitespace(c: char) -> bool {
    ||| '\u{0009}' <= c <= '\u{000D}'
    ||| c == '\u{0020}'
    ||| c == '\u{0085}'
    ||| c == '\u{00A0}'
    ||| c == '\u{1680}'
    ||| '\u{2000}' <= c <= '\u{200A}'
    ||| c == '\u{2028}'
    ||| c == '\u{2029}'
    ||| c == '\u{202F}'
    ||| c == '\u{205F}'
    ||| c == '\u{3000}'
}

/// What counts as white space by its number: the controls from the tab to the carriage return,
/// the spaces of all widths, and the separators of lines and paragraphs.
pub proof fn lemma_whitespace(c: char)
    ensures
        is_whitespace(c) <==> {
            let n = c as int;
            ||| 9 <= n <= 13
            ||| n == 32 || n == 133 || n == 160
            ||| n == 5760 || 8192 <= n <= 8202
            ||| n == 8232 || n == 8233 || n == 8239
            ||| n == 8287 || n == 12288
        },
{
}

/// Whether a character is white space.
pub fn whitespace(c: char) -> (yes: bool)
    ensures
        yes == is_whitespace(c),
{
    ('\u{0009}' <= c && c <= '\u{000D}') || c == '\u{0020}' || c == '\u{0085}' || c == '\u{00A0}'
        || c == '\u{1680}' || ('\u{2000}' <= c && c <= '\u{200A}') || c == '\u{2028}' || c
        == '\u{2029}' || c == '\u{202F}' || c == '\u{205F}' || c == '\u{3000}'
}

/// A text without the white space that it starts with.
pub open spec fn trim_start(text: Seq<char>) -> Seq<char>
    decreases text.len(),
{
    if text.len() > 0 && is_whitespace(text.first()) {
        trim_start(text.drop_first())
    } else {
        text
    }
}

/// A text without the white space that it ends with.
pub open spec fn trim_end(text: Seq<char>) -> Seq<char>
    decreases text.len(),
{
    if text.len() > 0 && is_whitespace(text.last()) {
        trim_end(text.drop_last())
    } else {
        text
    }
}

/// A text without the white space around it.
pub open spec fn trim(text: Seq<char>) -> Seq<char> {
    trim_end(trim_start(text))
}

/// Trimming takes nothing from a text that starts and ends in other characters.
pub proof fn lemma_trim_solid(text: Seq<char>)
    requires
        text.len() > 0 ==> !is_whitespace(text.first()) && !is_whitespace(text.last()),
    ensures
        trim(text) == text,
{
}

/// A trimmed text starts and ends in characters that are not white space.
pub proof fn lemma_trim_ends(text: Seq<char>)
    ensures
        trim(text).len() > 0 ==> !is_whitespace(trim(text).first()) && !is_whitespace(
            trim(text).last(),
        ),
{
    lemma_trim_start_first(text);
    lemma_trim_end_keeps_first(trim_start(text));
}

proof fn lemma_trim_start_first(text: Seq<char>)
    ensures
        trim_start(text).len() > 0 ==> !is_whitespace(trim_start(text).first()),
    decreases text.len(),
{
    if text.len() > 0 && is_whitespace(text.first()) {
        lemma_trim_start_first(text.drop_first());
    }
}

proof fn lemma_trim_end_keeps_first(text: Seq<char>)
    ensures
        trim_end(text).len() > 0 ==> trim_end(text).first() == text.first() && !is_whitespace(
            trim_end(text).last(),
        ),
    decreases text.len(),
{
    if text.len() > 0 && is_whitespace(text.last()) {
        lemma_trim_end_keeps_first(text.drop_last());
    }
}

/// What is trimmed from a text is white space at its ends, and all of it: the rest
/// is kept as it stands.
pub proof fn lemma_trim_keeps_the_middle(text: Seq<char>) -> (ends: (int, int))
    ensures
        0 <= ends.0 <= ends.1 <= text.len(),
        trim(text) == text.subrange(ends.0, ends.1),
        forall|i: int| 0 <= i < ends.0 ==> is_whitespace(#[trigger] text[i]),
        forall|i: int| ends.1 <= i < text.len() ==> is_whitespace(#[trigger] text[i]),
        ends.0 < ends.1 ==> !is_whitespace(text[ends.0]) && !is_whitespace(text[ends.1 - 1]),
{
    let from = lemma_trim_start_cuts(text);
    let rest = trim_start(text);
    let kept = lemma_trim_end_cuts(rest);
    assert(trim(text) =~= text.subrange(from, from + kept));
    assert forall|i: int| from + kept <= i < text.len() implies is_whitespace(
        #[trigger] text[i],
    ) by {
        assert(rest[i - from] == text[i]);
    }
    lemma_trim_ends(text);
    (from, from + kept)
}

proof fn lemma_trim_start_cuts(text: Seq<char>) -> (n: int)
    ensures
        0 <= n <= text.len(),
        trim_start(text) == text.skip(n),
        forall|i: int| 0 <= i < n ==> is_whitespace(#[trigger] text[i]),
    decreases text.len(),
{
    if text.len() > 0 && is_whitespace(text.first()) {
        let rest = text.drop_first();
        let n = lemma_trim_start_cuts(rest);
        assert(rest.skip(n) =~= text.skip(n + 1));
        assert forall|i: int| 0 <= i < n + 1 implies is_whitespace(#[trigger] text[i]) by {
            if i > 0 {
                assert(rest[i - 1] == text[i]);
            }
        }
        n + 1
    } else {
        assert(text.skip(0) =~= text);
        0
    }
}

proof fn lemma_trim_end_cuts(text: Seq<char>) -> (n: int)
    ensures
        0 <= n <= text.len(),
        trim_end(text) == text.take(n),
        forall|i: int| n <= i < text.len() ==> is_whitespace(#[trigger] text[i]),
    decreases text.len(),
{
    if text.len() > 0 && is_whitespace(text.last()) {
        let rest = text.drop_last();
        let n = lemma_trim_end_cuts(rest);
        assert(rest.take(n) =~= text.take(n));
        assert forall|i: int| n <= i < text.len() implies is_whitespace(#[trigger] text[i]) by {
            if i < rest.len() {
                assert(rest[i] == text[i]);
            }
        }
        n
    } else {
        assert(text.take(text.len() as int) =~= text);
        text.len() as int
    }
}

/// Trimming a second time changes nothing.
pub proof fn lemma_trim_idempotent(text: Seq<char>)
    ensures
        trim(trim(text)) == trim(text),
{
    lemma_trim_ends(text);
    lemma_trim_solid(trim(text));
}

/// Removes the white space around a string.
pub fn trimmed(s: &str) -> (t: String)
    ensures
        t@ == trim(s@),
{
    let chars = chars_of(s);
    let mut from: usize = 0;
    assert(chars@.skip(0) =~= chars@);
    while from < chars.len() && whitespace(chars[from])
        invariant
            from <= chars@.len(),
            trim_start(chars@) == trim_start(chars@.skip(from as int)),
        decreases chars@.len() - from,
    {
        assert(chars@.skip(from as int).drop_first() =~= chars@.skip(from + 1));
        from = from + 1;
    }
    let ghost rest = chars@.skip(from as int);
    assert(trim_start(chars@) == rest);
    let mut to: usize = chars.len();
    assert(rest.take(rest.len() as int) =~= rest);
    while from < to && whitespace(chars[to - 1])
        invariant
            from <= to <= chars@.len(),
            rest == chars@.skip(from as int),
            trim_end(rest) == trim_end(rest.take(to - from)),
        decreases to,
    {
        assert(rest.take(to - from).drop_last() =~= rest.take(to - from - 1));
        to = to - 1;
    }
    assert(rest.take(to - from) =~= chars@.subrange(from as int, to as int));
    string_of(&chars, from, to)
}

// ---------------------------------------------------------------------------
// Single characters at the ends
// ---------------------------------------------------------------------------

/// A text without the slashes that it ends with.
pub open spec fn without_trailing_slashes(text: Seq<char>) -> Seq<char>
    decreases text.len(),
{
    if text.len() > 0 && text.last() == '/' {
        without_trailing_slashes(text.drop_last())
    } else {
        text
    }
}

/// What is taken from the end of a text is slashes, and all of them.
pub proof fn lemma_trailing_slashes(text: Seq<char>)
    ensures
        ({
            let kept = without_trailing_slashes(text);
            &&& kept.len() <= text.len()
            &&& kept == text.take(kept.len() as int)
            &&& forall|i: int| kept.len() <= i < text.len() ==> text[i] == '/'
            &&& kept.len() > 0 ==> kept.last() != '/'
        }),
    decreases text.len(),
{
    if text.len() > 0 && text.last() == '/' {
        let rest = text.drop_last();
        lemma_trailing_slashes(rest);
        let kept = without_trailing_slashes(rest);
        assert(kept =~= text.take(kept.len() as int));
        assert forall|i: int| kept.len() <= i < text.len() implies text[i] == '/' by {
            if i < rest.len() {
                assert(rest[i] == text[i]);
            }
        }
    } else {
        assert(text.take(text.len() as int) =~= text);
    }
}

/// Counts the characters that are left without the trailing slashes.
pub fn solid_len(chars: &Vec<char>) -> (n: usize)
    ensures
        n <= chars@.len(),
        chars@.take(n as int) == without_trailing_slashes(chars@),
        n > 0 ==> chars@[n - 1] != '/',
{
    let mut n: usize = chars.len();
    assert(chars@.take(n as int) =~= chars@);
    while n > 0 && chars[n - 1] == '/'
        invariant
            n <= chars@.len(),
            without_trailing_slashes(chars@) == without_trailing_slashes(chars@.take(n as int)),
        decreases n,
    {
        assert(chars@.take(n as int).drop_last() =~= chars@.take(n - 1));
        n = n - 1;
    }
    n
}

/// Removes the slashes that a string ends with.
pub fn trim_end_slashes(s: &str) -> (t: String)
    ensures
        t@ == without_trailing_slashes(s@),
{
    let chars = chars_of(s);
    let n = solid_len(&chars);
    assert(chars@.take(n as int) =~= chars@.subrange(0, n as int));
    string_of(&chars, 0, n)
}

/// Whether a string starts with a given character.
pub fn starts_with_char(s: &str, c: char) -> (yes: bool)
    ensures
        yes == (s@.len() > 0 && s@[0] == c),
{
    !s.is_empty() && s.get_char(0) == c
}

/// Whether one text starts with another.
pub open spec fn has_prefix(text: Seq<char>, prefix: Seq<char>) -> bool {
    prefix.len() <= text.len() && text.take(prefix.len() as int) == prefix
}

/// The position of the last occurrence of a character, if it occurs.
pub open spec fn last_position(text: Seq<char>, c: char) -> Option<int>
    decreases text.len(),
{
    if text.len() == 0 {
        None
    } else if text.last() == c {
        Some(text.len() - 1)
    } else {
        last_position(text.drop_last(), c)
    }
}

/// Finds the last occurrence of a character.
pub fn rfind(chars: &Vec<char>, c: char) -> (pos: Option<usize>)
    ensures
        match pos {
            Some(p) => last_position(chars@, c) == Some(p as int) && p < chars@.len() && chars@[p as int] == c,
            None => last_position(chars@, c) is None,
        },
{
    let mut n: usize = chars.len();
    assert(chars@.take(n as int) =~= chars@);
    while n > 0
        invariant
            n <= chars@.len(),
            last_position(chars@, c) == last_position(chars@.take(n as int), c),
        decreases n,
    {
        assert(chars@.take(n as int).drop_last() =~= chars@.take(n - 1));
        if chars[n - 1] == c {
            return Some(n - 1);
        }
        n = n - 1;
    }
    None
}

/// What `last_position` finds is an occurrence, and none follows it.
pub proof fn lemma_last_position(text: Seq<char>, c: char)
    ensures
        match last_position(text, c) {
            Some(p) => 0 <= p < text.len() && text[p] == c && forall|i: int|
                p < i < text.len() ==> text[i] != c,
            None => forall|i: int| 0 <= i < text.len() ==> text[i] != c,
        },
    decreases text.len(),
{
    if text.len() > 0 && text.last() != c {
        lemma_last_position(text.drop_last(), c);
        assert forall|i: int| 0 <= i < text.len() - 1 implies text[i] == text.drop_last()[i] by {}
    }
}

// ---------------------------------------------------------------------------
// Decimal numbers
// ---------------------------------------------------------------------------

/// The decimal digit that stands for a number below ten.
pub open spec fn digit(d: nat) -> char {
    ((48 + d) as u8) as char
}

/// The decimal form of a number, without leading zeros.
pub open spec fn decimal(n: nat) -> Seq<char>
    decreases n,
{
    if n < 10 {
        seq![digit(n)]
    } else {
        decimal(n / 10).push(digit(n % 10))
    }
}

/// Writes a number in decimal.
pub fn decimal_string(n: u64) -> (s: String)
    ensures
        s@ == decimal(n as nat),
    decreases n,
{
    if n < 10 {
        let mut s = String::new();
        s.push((48 + n) as u8 as char);
        assert(s@ =~= seq![digit(n as nat)]);
        s
    } else {
        let mut s = decimal_string(n / 10);
        s.push((48 + n % 10) as u8 as char);
        s
    }
}

/// Whether a character is a decimal digit of ASCII.
pub open spec fn is_digit(c: char) -> bool {
    '0' <= c <= '9'
}

/// The number that a sequence of digits stands for.
pub open spec fn digits_value(digits: Seq<char>) -> nat
    decreases digits.len(),
{
    if digits.len() == 0 {
        0
    } else {
        digits_value(digits.drop_last()) * 10 + (digits.last() as u32 - 48) as nat
    }
}

/// A text without the plus sign that it may start with.
pub open spec fn unsigned_part(text: Seq<char>) -> Seq<char> {
    if text.len() > 0 && text[0] == '+' {
        text.skip(1)
    } else {
        text
    }
}

/// The port number that a text stands for: an optional plus sign, then one or
/// more digits, whose value is at most 65535.
pub open spec fn parse_port(text: Seq<char>) -> Option<u16> {
    let digits = unsigned_part(text);
    if digits.len() > 0 && (forall|i: int| 0 <= i < digits.len() ==> is_digit(#[trigger] digits[i]))
        && digits_value(digits) <= 65535 {
        Some(digits_value(digits) as u16)
    } else {
        None
    }
}

proof fn lemma_digits_value_grows(digits: Seq<char>, n: int)
    requires
        0 <= n <= digits.len(),
    ensures
        digits_value(digits.take(n)) <= digits_value(digits),
    decreases digits.len() - n,
{
    if n == digits.len() {
        assert(digits.take(n) =~= digits);
    } else {
        lemma_digits_value_grows(digits, n + 1);
        assert(digits.take(n + 1).drop_last() =~= digits.take(n));
    }
}

/// Reads a port number.
pub fn port_of(s: &str) -> (port: Option<u16>)
    ensures
        port == parse_port(s@),
{
    let chars = chars_of(s);
    let start: usize = if chars.len() > 0 && chars[0] == '+' {
        1
    } else {
        0
    };
    let ghost digits = unsigned_part(s@);
    assert(digits =~= chars@.skip(start as int));
    if start == chars.len() {
        return None;
    }
    let mut value: u32 = 0;
    let mut i: usize = start;
    assert(digits.take(0) =~= Seq::<char>::empty());
    while i < chars.len()
        invariant
            start <= i <= chars@.len(),
            digits == chars@.skip(start as int),
            digits == unsigned_part(s@),
            value <= 65535,
            value as nat == digits_value(digits.take(i - start)),
            forall|k: int| 0 <= k < i - start ==> is_digit(#[trigger] digits[k]),
        decreases chars@.len() - i,
    {
        let c = chars[i];
        assert(digits[i - start] == c);
        if c < '0' || '9' < c {
            return None;
        }
        let d = c as u32 - 48;
        proof {
            assert(digits.take(i - start + 1).drop_last() =~= digits.take(i - start));
            assert(digits_value(digits.take(i - start + 1)) == value * 10 + d);
            lemma_digits_value_grows(digits, i - start + 1);
        }
        value = value * 10 + d;
        if value > 65535 {
            return None;
        }
        i = i + 1;
    }
    assert(digits.take(i - start) =~= digits);
    Some(value as u16)
}

/// Reading back the decimal form of a port gives the port.
pub proof fn lemma_port_round_trip(port: u16)
    ensures
        parse_port(decimal(port as nat)) == Some(port),
{
    lemma_decimal(port as nat);
    let digits = decimal(port as nat);
    assert(is_digit(digits[0]));
    assert(unsigned_part(digits) == digits);
}

/// The decimal form of a number holds digits, at least one, and has that value.
pub proof fn lemma_decimal(n: nat)
    ensures
        decimal(n).len() > 0,
        forall|i: int| 0 <= i < decimal(n).len() ==> is_digit(#[trigger] decimal(n)[i]),
        digits_value(decimal(n)) == n,
    decreases n,
{
    if n < 10 {
        let s = decimal(n);
        assert(s.drop_last() =~= Seq::<char>::empty());
        assert(digits_value(s.drop_last()) == 0);
    } else {
        lemma_decimal(n / 10);
        let s = decimal(n);
        assert(s.drop_last() =~= decimal(n / 10));
        assert forall|i: int| 0 <= i < s.len() implies is_digit(#[trigger] s[i]) by {
            if i < s.len() - 1 {
                assert(s[i] == decimal(n / 10)[i]);
            }
        }
    }
}

/// The decimal form of a number is never trimmed.
pub proof fn lemma_decimal_solid(n: nat)
    ensures
        trim(decimal(n)) == decimal(n),
{
    lemma_decimal(n);
    let s = decimal(n);
    assert(is_digit(s[0]));
    assert(is_digit(s[s.len() - 1]));
    lemma_trim_solid(s);
}

} // verus!
