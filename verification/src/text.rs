//! Character classes and the searches over character sequences that the lexer
//! is built from.

use vstd::prelude::*;
use vstd::string::*;
use vstd::utf8::{
    char_is_scalar, encode_utf8, encode_utf8_decode_utf8, encode_utf8_first_scalar,
    encode_utf8_valid_utf8, is_char_boundary, pop_first_scalar,
};

verus! {

/// The classes of characters that the lexer trims or searches for.
#[derive(Clone, Copy, Debug, PartialEq, Eq, Structural)]
pub enum CharClass {
    /// Every character with the Unicode property `White_Space`.
    Whitespace,
    /// Tab, line feed, vertical tab, form feed, carriage return and space.
    AsciiWhitespace,
    /// Every character that is not in `AsciiWhitespace`.
    NonBlank,
    /// The space character alone.
    Space,
    /// The semicolon alone.
    Semicolon,
    /// A decimal digit or the minus sign.
    NumberPart,
}

impl CharClass {
    /// Whether the character is in the class.
    pub open spec fn holds(self, c: char) -> bool {
        let u = c as u32;
        match self {
            CharClass::Whitespace => {
                ||| 0x09 <= u <= 0x0D
                ||| u == 0x20
                ||| u == 0x85
                ||| u == 0xA0
                ||| u == 0x1680
                ||| 0x2000 <= u <= 0x200A
                ||| u == 0x2028
                ||| u == 0x2029
                ||| u == 0x202F
                ||| u == 0x205F
                ||| u == 0x3000
            },
            CharClass::AsciiWhitespace => 0x09 <= u <= 0x0D || u == 0x20,
            CharClass::NonBlank => !(0x09 <= u <= 0x0D || u == 0x20),
            CharClass::Space => c == ' ',
            CharClass::Semicolon => c == ';',
            CharClass::NumberPart => is_digit(c) || c == '-',
        }
    }

    /// Tests whether the character is in the class.
    pub fn test(&self, c: char) -> (b: bool)
        ensures
            b == self.holds(c),
    {
        let u: u32 = c as u32;
        match self {
            CharClass::Whitespace => {
                (0x09 <= u && u <= 0x0D) || u == 0x20 || u == 0x85 || u == 0xA0 || u == 0x1680
                    || (0x2000 <= u && u <= 0x200A) || u == 0x2028 || u == 0x2029 || u == 0x202F
                    || u == 0x205F || u == 0x3000
            },
            CharClass::AsciiWhitespace => (0x09 <= u && u <= 0x0D) || u == 0x20,
            CharClass::NonBlank => !((0x09 <= u && u <= 0x0D) || u == 0x20),
            CharClass::Space => c == ' ',
            CharClass::Semicolon => c == ';',
            CharClass::NumberPart => char_is_digit(c) || c == '-',
        }
    }
}

/// Whether the character is a decimal digit.
pub open spec fn is_digit(c: char) -> bool {
    '0' <= c <= '9'
}

/// Tests whether the character is a decimal digit.
pub fn char_is_digit(c: char) -> (b: bool)
    ensures
        b == is_digit(c),
{
    '0' <= c && c <= '9'
}

/// The length of the longest prefix of `s` whose characters are all in `class`.
pub open spec fn lead(s: Seq<char>, class: CharClass) -> nat
    decreases s.len(),
{
    if s.len() > 0 && class.holds(s[0]) {
        1 + lead(s.drop_first(), class)
    } else {
        0
    }
}

/// The length of the longest suffix of `s` whose characters are all in `class`.
pub open spec fn trail(s: Seq<char>, class: CharClass) -> nat
    decreases s.len(),
{
    if s.len() > 0 && class.holds(s.last()) {
        1 + trail(s.drop_last(), class)
    } else {
        0
    }
}

/// `s` without its leading characters of `class`.
pub open spec fn trim_start(s: Seq<char>, class: CharClass) -> Seq<char> {
    s.skip(lead(s, class) as int)
}

/// `s` without its trailing characters of `class`.
pub open spec fn trim_end(s: Seq<char>, class: CharClass) -> Seq<char> {
    s.take(s.len() - trail(s, class))
}

/// `s` without its leading and trailing characters of `class`.
pub open spec fn trim(s: Seq<char>, class: CharClass) -> Seq<char> {
    trim_end(trim_start(s, class), class)
}

/// `lead` is the one position that ends a run of `class` which starts at 0.
pub proof fn lemma_lead_is(s: Seq<char>, class: CharClass, n: int)
    requires
        0 <= n <= s.len(),
        forall|j: int| 0 <= j < n ==> class.holds(#[trigger] s[j]),
        n < s.len() ==> !class.holds(s[n]),
    ensures
        lead(s, class) == n,
    decreases s.len(),
{
    if n > 0 {
        let t = s.drop_first();
        lemma_lead_is(t, class, n - 1);
    }
}

/// `trail` is the one length of a run of `class` that ends `s`.
pub proof fn lemma_trail_is(s: Seq<char>, class: CharClass, n: int)
    requires
        0 <= n <= s.len(),
        forall|j: int| s.len() - n <= j < s.len() ==> class.holds(#[trigger] s[j]),
        n < s.len() ==> !class.holds(s[s.len() - n - 1]),
    ensures
        trail(s, class) == n,
    decreases s.len(),
{
    if n > 0 {
        let t = s.drop_last();
        lemma_trail_is(t, class, n - 1);
    }
}

/// The characters of a run counted by `lead` are in the class, and the one
/// behind it is not.
pub proof fn lemma_lead_bounds(s: Seq<char>, class: CharClass)
    ensures
        lead(s, class) <= s.len(),
        forall|j: int| 0 <= j < lead(s, class) ==> class.holds(#[trigger] s[j]),
        lead(s, class) < s.len() ==> !class.holds(s[lead(s, class) as int]),
    decreases s.len(),
{
    if s.len() > 0 && class.holds(s[0]) {
        let t = s.drop_first();
        lemma_lead_bounds(t, class);
        assert forall|j: int| 0 <= j < lead(s, class) implies class.holds(#[trigger] s[j]) by {
            if j > 0 {
                assert(s[j] == t[j - 1]);
            }
        }
    }
}

/// The characters of `s`, one by one.
pub fn to_chars(s: &str) -> (chars: Vec<char>)
    ensures
        chars@ == s@,
{
    let mut chars: Vec<char> = Vec::new();
    let it = s.chars();
    for c in iter: it
        invariant
            chars@ == iter.seq().take(iter.index() as int),
    {
        chars.push(c);
    }
    chars
}

/// The end of the run of `class` that starts at `from` in `chars[..to]`.
pub fn skip_class(chars: &Vec<char>, from: usize, to: usize, class: CharClass) -> (end: usize)
    requires
        from <= to <= chars.len(),
    ensures
        end == from + lead(chars@.subrange(from as int, to as int), class),
        from <= end <= to,
{
    let mut i: usize = from;
    while i < to && class.test(chars[i])
        invariant
            from <= i <= to <= chars.len(),
            forall|j: int| from <= j < i ==> class.holds(#[trigger] chars@[j]),
        decreases to - i,
    {
        i += 1;
    }
    proof {
        let sub = chars@.subrange(from as int, to as int);
        lemma_lead_is(sub, class, i - from);
    }
    i
}

/// The start of the run of `class` that ends at `to` in `chars[from..]`.
pub fn skip_class_back(chars: &Vec<char>, from: usize, to: usize, class: CharClass) -> (start:
    usize)
    requires
        from <= to <= chars.len(),
    ensures
        start == to - trail(chars@.subrange(from as int, to as int), class),
        from <= start <= to,
{
    let mut i: usize = to;
    while i > from && class.test(chars[i - 1])
        invariant
            from <= i <= to <= chars.len(),
            forall|j: int| i <= j < to ==> class.holds(#[trigger] chars@[j]),
        decreases i,
    {
        i -= 1;
    }
    proof {
        let sub = chars@.subrange(from as int, to as int);
        lemma_trail_is(sub, class, to - i);
    }
    i
}

/// Whether `chars[from..to]` spells `word`.
pub fn spells(chars: &Vec<char>, from: usize, to: usize, word: &str) -> (b: bool)
    requires
        from <= to <= chars.len(),
    ensures
        b == (chars@.subrange(from as int, to as int) == word@),
{
    let w = to_chars(word);
    if w.len() != to - from {
        return false;
    }
    let mut i: usize = 0;
    while i < w.len()
        invariant
            from <= to <= chars.len(),
            w.len() == to - from,
            i <= w.len(),
            w@ == word@,
            forall|j: int| 0 <= j < i ==> chars@[from + j] == #[trigger] w@[j],
        decreases w.len() - i,
    {
        if chars[from + i] != w[i] {
            return false;
        }
        i += 1;
    }
    proof {
        assert(chars@.subrange(from as int, to as int) =~= word@);
    }
    true
}

/// The number of bytes that the characters of `s` take in UTF-8.
pub open spec fn utf8_len(s: Seq<char>) -> nat {
    encode_utf8(s).len()
}

/// The number of bytes that a character takes in UTF-8.
pub fn char_width(c: char) -> (width: usize)
    ensures
        width == utf8_len(seq![c]),
        1 <= width <= 4,
{
    proof {
        char_is_scalar(c);
        reveal_with_fuel(encode_utf8, 2);
    }
    let u: u32 = c as u32;
    if u < 0x80 {
        1
    } else if u < 0x800 {
        2
    } else if u < 0x10000 {
        3
    } else {
        4
    }
}

/// The encoding of two texts in a row is the encoding of the first before
/// the encoding of the second.
pub proof fn lemma_encode_concat(a: Seq<char>, b: Seq<char>)
    ensures
        encode_utf8(a + b) == encode_utf8(a) + encode_utf8(b),
    decreases a.len(),
{
    if a.len() > 0 {
        lemma_encode_concat(a.drop_first(), b);
        assert((a + b).drop_first() =~= a.drop_first() + b);
    }
}

/// The encoding of the first `n` characters of a text ends at a character
/// boundary of the encoding of the text.
pub proof fn lemma_prefix_ends_at_boundary(s: Seq<char>, n: int)
    requires
        0 <= n <= s.len(),
    ensures
        is_char_boundary(encode_utf8(s), utf8_len(s.take(n)) as int),
        utf8_len(s.take(n)) <= utf8_len(s),
        encode_utf8(s).subrange(0, utf8_len(s.take(n)) as int) == encode_utf8(s.take(n)),
        encode_utf8(s).subrange(utf8_len(s.take(n)) as int, utf8_len(s) as int) == encode_utf8(
            s.skip(n),
        ),
    decreases n,
{
    let bytes = encode_utf8(s);
    encode_utf8_valid_utf8(s);
    lemma_encode_concat(s.take(n), s.skip(n));
    assert(s.take(n) + s.skip(n) =~= s);
    if n > 0 {
        let rest = s.drop_first();
        encode_utf8_first_scalar(s);
        assert(pop_first_scalar(bytes) =~= encode_utf8(rest));
        lemma_prefix_ends_at_boundary(rest, n - 1);
        assert(s.take(n).drop_first() =~= rest.take(n - 1));
        char_is_scalar(s[0]);
    }
}

/// Cuts a string slice behind its first `n` characters, which take `mid`
/// bytes.
pub(crate) fn split_chars<'a>(s: &'a str, Ghost(n): Ghost<int>, mid: usize) -> (parts: (
    &'a str,
    &'a str,
))
    requires
        0 <= n <= s@.len(),
        mid == utf8_len(s@.take(n)),
    ensures
        parts.0@ == s@.take(n),
        parts.1@ == s@.skip(n),
{
    proof {
        lemma_prefix_ends_at_boundary(s@, n);
    }
    let parts = s.split_at(mid);
    proof {
        encode_utf8_decode_utf8(parts.0@);
        encode_utf8_decode_utf8(parts.1@);
        encode_utf8_decode_utf8(s@.take(n));
        encode_utf8_decode_utf8(s@.skip(n));
    }
    parts
}

/// The character of a decimal digit.
pub open spec fn digit_char(d: int) -> char {
    ((48 + d) as u8) as char
}

/// The decimal digits of `n` before the digits `behind`.
pub open spec fn digits_before(n: nat, behind: Seq<char>) -> Seq<char>
    decreases n,
{
    if n < 10 {
        seq![digit_char(n as int)] + behind
    } else {
        digits_before(n / 10, seq![digit_char((n % 10) as int)] + behind)
    }
}

/// A number in decimal digits, behind a minus sign where it is negative.
pub open spec fn decimal(value: int) -> Seq<char> {
    if value < 0 {
        seq!['-'] + digits_before((-value) as nat, Seq::empty())
    } else {
        digits_before(value as nat, Seq::empty())
    }
}

/// Adds a number in decimal digits to a text.
pub fn push_decimal(text: &mut String, value: i32)
    ensures
        final(text)@ == old(text)@ + decimal(value as int),
{
    let mut digits: Vec<char> = Vec::new();
    let magnitude: u64 = if value < 0 {
        (-(value as i64)) as u64
    } else {
        value as u64
    };
    let mut n: u64 = magnitude;
    while n >= 10
        invariant
            digits_before(magnitude as nat, Seq::empty()) == digits_before(n as nat, digits@),
        decreases n,
    {
        let digit = (48u8 + (n % 10) as u8) as char;
        let ghost before = digits@;
        digits.insert(0, digit);
        assert(digits@ =~= seq![digit] + before);
        n = n / 10;
    }
    let digit = (48u8 + n as u8) as char;
    digits.insert(0, digit);
    if value < 0 {
        text.push('-');
    }
    let ghost head = text@;
    let mut i: usize = 0;
    while i < digits.len()
        invariant
            i <= digits.len(),
            text@ == head + digits@.take(i as int),
        decreases digits.len() - i,
    {
        text.push(digits[i]);
        i += 1;
    }
}

} // verus!
