//! Sets of characters, as a pattern names them.

use vstd::prelude::*;

verus! {

/// A set of characters.
#[derive(Debug, PartialEq, Eq)]
pub enum CharSet {
    /// Every character but the line feed.
    Any,
    /// One character.
    Just(char),
    /// The characters from the first to the second, both included.
    Span(char, char),
    /// The ASCII digits.
    Digit,
    /// The ASCII letters and digits, and the underscore.
    Word,
    /// Space, tab, line feed, vertical tab, form feed and carriage return.
    Blank,
    /// The characters of either set.
    Union(Box<CharSet>, Box<CharSet>),
    /// The characters outside the set.
    Outside(Box<CharSet>),
}

pub open spec fn is_digit(c: char) -> bool {
    '0' <= c <= '9'
}

pub open spec fn is_word(c: char) -> bool {
    is_digit(c) || 'a' <= c <= 'z' || 'A' <= c <= 'Z' || c == '_'
}

pub open spec fn is_blank(c: char) -> bool {
    c == ' ' || c == '\t' || c == '\n' || c == '\x0B' || c == '\x0C' || c == '\r'
}

impl CharSet {
    /// Whether `c` belongs to the set.
    pub open spec fn holds(self, c: char) -> bool
        decreases self,
    {
        match self {
            CharSet::Any => c != '\n',
            CharSet::Just(only) => c == only,
            CharSet::Span(low, high) => low <= c <= high,
            CharSet::Digit => is_digit(c),
            CharSet::Word => is_word(c),
            CharSet::Blank => is_blank(c),
            CharSet::Union(left, right) => left.holds(c) || right.holds(c),
            CharSet::Outside(inner) => !inner.holds(c),
        }
    }

    /// Tests whether `c` belongs to the set.
    pub fn contains(&self, c: char) -> (found: bool)
        ensures
            found == self.holds(c),
        decreases self,
    {
        match self {
            CharSet::Any => c != '\n',
            CharSet::Just(only) => c == *only,
            CharSet::Span(low, high) => *low <= c && c <= *high,
            CharSet::Digit => '0' <= c && c <= '9',
            CharSet::Word => ('0' <= c && c <= '9') || ('a' <= c && c <= 'z') || ('A' <= c && c
                <= 'Z') || c == '_',
            CharSet::Blank => c == ' ' || c == '\t' || c == '\n' || c == '\x0B' || c == '\x0C'
                || c == '\r',
            CharSet::Union(left, right) => left.contains(c) || right.contains(c),
            CharSet::Outside(inner) => !inner.contains(c),
        }
    }
}

} // verus!
