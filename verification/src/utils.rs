//! Helpers on string slices.

use vstd::prelude::*;
use vstd::string::*;
use crate::text::{lead, skip_class, to_chars, CharClass};

verus! {

/// The identifier at the start of `s`: what stands before its first blank,
/// or all of `s` where it starts with a blank or holds none.
pub open spec fn first_word(s: Seq<char>) -> Seq<char> {
    let k = lead(s, CharClass::NonBlank);
    if 0 < k < s.len() {
        s.take(k as int)
    } else {
        s
    }
}

/// What follows the first blank of `s`, or nothing where `first_word` is all
/// of `s`.
pub open spec fn after_first_word(s: Seq<char>) -> Seq<char> {
    let k = lead(s, CharClass::NonBlank);
    if 0 < k < s.len() {
        s.skip(k as int + 1)
    } else {
        Seq::empty()
    }
}

/// What the lexer asks of a string slice.
pub trait StrUtils: View<V = Seq<char>> {
    /// Splits the string at its first blank, which belongs to neither part.
    /// A blank is a tab, a line feed, a vertical tab, a form feed, a carriage
    /// return or a space.
    fn split_first_whitespace(&self) -> (parts: (&str, &str))
        ensures
            parts.0@ == first_word(self@),
            parts.1@ == after_first_word(self@),
    ;
}

impl StrUtils for str {
    fn split_first_whitespace(&self) -> (parts: (&str, &str)) {
        let chars = to_chars(self);
        let len = chars.len();
        let first_whitespace_index = skip_class(&chars, 0, len, CharClass::NonBlank);
        proof {
            assert(chars@.subrange(0, len as int) == self@);
        }
        if first_whitespace_index > 0 && first_whitespace_index != len {
            (
                self.substring_char(0, first_whitespace_index),
                self.substring_char(first_whitespace_index + 1, len),
            )
        } else {
            proof {
                reveal_strlit("");
            }
            (self, "")
        }
    }
}

} // verus!
