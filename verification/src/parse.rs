//! The written form of a pattern, and how it is compiled.
//!
//! A pattern is written as alternatives separated by `|`. An alternative is a
//! row of pieces. A piece is an atom, which `*` (any number of times), `+`
//! (once or more) or `?` (once or not at all) may follow. An atom is
//!
//! - a character that has no meaning of its own, which stands for itself;
//! - `.`, any character but the line feed;
//! - `^` and `$`, the start and the end of the text;
//! - `\d`, `\w`, `\s`, a digit, a word character, a blank, and `\D`, `\W`,
//!   `\S`, anything else; `\` before a punctuation mark, that mark;
//! - `[...]`, one of the listed characters, and `[^...]`, any other: the list
//!   holds characters, escapes as above, and ranges such as `a-z`; inside it
//!   `\`, `[`, `]`, `^` and `-` are written with `\` before them;
//! - `(...)`, a pattern of its own.
//!
//! One repetition mark may follow an atom, not two. Braces are kept for later
//! use and are refused. Whatever else does not fit the above is refused too:
//! a parenthesis or a bracket without its partner, a mark with nothing
//! before it, `\` before a letter that is none of the six, a range that runs
//! downwards.

use vstd::prelude::*;
use crate::charset::CharSet;
use crate::pattern::{lemma_char_then, Pattern};
use crate::text::chars_of;

verus! {

/// Whether `c` is an ASCII punctuation mark.
pub open spec fn is_punctuation(c: char) -> bool {
    '!' <= c <= '/' || ':' <= c <= '@' || '[' <= c <= '`' || '{' <= c <= '~'
}

/// Whether `c` has a meaning of its own in a pattern.
pub open spec fn is_special(c: char) -> bool {
    c == '\\' || c == '.' || c == '^' || c == '$' || c == '|' || c == '(' || c == ')' || c == '['
        || c == ']' || c == '{' || c == '}' || c == '*' || c == '+' || c == '?'
}

/// Whether `c` has a meaning of its own inside brackets.
pub open spec fn is_special_in_list(c: char) -> bool {
    c == '\\' || c == '[' || c == ']' || c == '^' || c == '-'
}

/// The set that `\` followed by `c` stands for.
pub open spec fn escaped(c: char) -> Option<CharSet> {
    if c == 'd' {
        Some(CharSet::Digit)
    } else if c == 'w' {
        Some(CharSet::Word)
    } else if c == 's' {
        Some(CharSet::Blank)
    } else if c == 'D' {
        Some(CharSet::Outside(Box::new(CharSet::Digit)))
    } else if c == 'W' {
        Some(CharSet::Outside(Box::new(CharSet::Word)))
    } else if c == 'S' {
        Some(CharSet::Outside(Box::new(CharSet::Blank)))
    } else if is_punctuation(c) {
        Some(CharSet::Just(c))
    } else {
        None
    }
}

/// One character of a list, or one escape, read at `at`.
pub open spec fn parse_unit(s: Seq<char>, at: int) -> Option<(CharSet, int)> {
    if !(0 <= at < s.len()) {
        None
    } else if s[at] == '\\' {
        if at + 1 < s.len() && escaped(s[at + 1]) is Some {
            Some((escaped(s[at + 1])->0, at + 2))
        } else {
            None
        }
    } else if is_special_in_list(s[at]) {
        None
    } else {
        Some((CharSet::Just(s[at]), at + 1))
    }
}

/// One member of a list, read at `at`: a unit, or a range between two
/// characters of which the first is not above the second.
pub open spec fn parse_member(s: Seq<char>, at: int) -> Option<(CharSet, int)> {
    match parse_unit(s, at) {
        None => None,
        Some((low, next)) => if next < s.len() && s[next] == '-' {
            match (low, parse_unit(s, next + 1)) {
                (CharSet::Just(first), Some((CharSet::Just(last), end))) => if first <= last {
                    Some((CharSet::Span(first, last), end))
                } else {
                    None
                },
                _ => None,
            }
        } else {
            Some((low, next))
        },
    }
}

/// The members of a list, read from `at` up to the closing bracket, which
/// is left unread.
pub open spec fn parse_members(s: Seq<char>, at: int) -> Option<(CharSet, int)>
    decreases s.len() - at,
{
    match parse_member(s, at) {
        None => None,
        Some((first, next)) => if next < s.len() && s[next] == ']' {
            Some((first, next))
        } else if at < next {
            match parse_members(s, next) {
                None => None,
                Some((rest, end)) => Some((CharSet::Union(Box::new(first), Box::new(rest)), end)),
            }
        } else {
            None
        },
    }
}

/// A list, read from `at`, the position after its opening bracket, up to
/// and including its closing bracket.
pub open spec fn parse_list(s: Seq<char>, at: int) -> Option<(CharSet, int)> {
    let inverted = 0 <= at < s.len() && s[at] == '^';
    let from = if inverted {
        at + 1
    } else {
        at
    };
    match parse_members(s, from) {
        None => None,
        Some((set, end)) => if 0 <= end < s.len() && s[end] == ']' {
            if inverted {
                Some((CharSet::Outside(Box::new(set)), end + 1))
            } else {
                Some((set, end + 1))
            }
        } else {
            None
        },
    }
}

/// An atom, read at `at`.
pub open spec fn parse_atom(s: Seq<char>, at: int) -> Option<(Pattern, int)>
    decreases s.len() - at, 0int,
{
    if !(0 <= at < s.len()) {
        None
    } else if s[at] == '(' {
        match parse_alternatives(s, at + 1) {
            None => None,
            Some((inner, end)) => if 0 <= end < s.len() && s[end] == ')' {
                Some((inner, end + 1))
            } else {
                None
            },
        }
    } else if s[at] == '[' {
        match parse_list(s, at + 1) {
            None => None,
            Some((set, end)) => Some((Pattern::Chars(set), end)),
        }
    } else if s[at] == '\\' {
        if at + 1 < s.len() && escaped(s[at + 1]) is Some {
            Some((Pattern::Chars(escaped(s[at + 1])->0), at + 2))
        } else {
            None
        }
    } else if s[at] == '.' {
        Some((Pattern::Chars(CharSet::Any), at + 1))
    } else if s[at] == '^' {
        Some((Pattern::Start, at + 1))
    } else if s[at] == '$' {
        Some((Pattern::End, at + 1))
    } else if is_special(s[at]) {
        None
    } else {
        Some((Pattern::Chars(CharSet::Just(s[at])), at + 1))
    }
}

/// A piece, read at `at`: an atom and the repetition mark that may follow it.
pub open spec fn parse_piece(s: Seq<char>, at: int) -> Option<(Pattern, int)>
    decreases s.len() - at, 1int,
{
    match parse_atom(s, at) {
        None => None,
        Some((atom, next)) => if 0 <= next < s.len() && s[next] == '*' {
            Some((Pattern::Many(Box::new(atom)), next + 1))
        } else if 0 <= next < s.len() && s[next] == '+' {
            Some((Pattern::Several(Box::new(atom)), next + 1))
        } else if 0 <= next < s.len() && s[next] == '?' {
            Some((Pattern::Maybe(Box::new(atom)), next + 1))
        } else {
            Some((atom, next))
        },
    }
}

/// Whether an alternative ends at `at`: at the end of the text, at `|` or at
/// a closing parenthesis.
pub open spec fn alternative_ends(s: Seq<char>, at: int) -> bool {
    at >= s.len() || (0 <= at && (s[at] == '|' || s[at] == ')'))
}

/// `first` followed by `rest`; nothing is added for an empty rest.
pub open spec fn chain(first: Pattern, rest: Pattern) -> Pattern {
    if rest is Empty {
        first
    } else {
        Pattern::Then(Box::new(first), Box::new(rest))
    }
}

/// An alternative, read at `at`: a row of pieces.
pub open spec fn parse_alternative(s: Seq<char>, at: int) -> Option<(Pattern, int)>
    decreases s.len() - at, 2int,
{
    if alternative_ends(s, at) {
        Some((Pattern::Empty, at))
    } else {
        match parse_piece(s, at) {
            None => None,
            Some((first, next)) => if at < next <= s.len() {
                match parse_alternative(s, next) {
                    None => None,
                    Some((rest, end)) => Some((chain(first, rest), end)),
                }
            } else {
                None
            },
        }
    }
}

/// Alternatives separated by `|`, read at `at`.
pub open spec fn parse_alternatives(s: Seq<char>, at: int) -> Option<(Pattern, int)>
    decreases s.len() - at, 3int,
{
    match parse_alternative(s, at) {
        None => None,
        Some((first, next)) => if at <= next < s.len() && s[next] == '|' {
            match parse_alternatives(s, next + 1) {
                None => None,
                Some((rest, end)) => Some((Pattern::Either(Box::new(first), Box::new(rest)), end)),
            }
        } else {
            Some((first, next))
        },
    }
}

/// The pattern that `s` is the written form of, if it is one.
pub open spec fn parse_pattern(s: Seq<char>) -> Option<Pattern> {
    match parse_alternatives(s, 0) {
        None => None,
        Some((whole, end)) => if end == s.len() {
            Some(whole)
        } else {
            None
        },
    }
}

/// Whether what was read is what the written form holds: nothing in both, or
/// the same value up to the same position.
pub open spec fn agrees<T>(got: Option<(T, usize)>, want: Option<(T, int)>) -> bool {
    match (got, want) {
        (None, None) => true,
        (Some((value, next)), Some((wanted, end))) => value == wanted && next == end,
        _ => false,
    }
}

fn read_escape(c: char) -> (got: Option<CharSet>)
    ensures
        got == escaped(c),
{
    if c == 'd' {
        Some(CharSet::Digit)
    } else if c == 'w' {
        Some(CharSet::Word)
    } else if c == 's' {
        Some(CharSet::Blank)
    } else if c == 'D' {
        Some(CharSet::Outside(Box::new(CharSet::Digit)))
    } else if c == 'W' {
        Some(CharSet::Outside(Box::new(CharSet::Word)))
    } else if c == 'S' {
        Some(CharSet::Outside(Box::new(CharSet::Blank)))
    } else if ('!' <= c && c <= '/') || (':' <= c && c <= '@') || ('[' <= c && c <= '`') || ('{'
        <= c && c <= '~') {
        Some(CharSet::Just(c))
    } else {
        None
    }
}

fn special(c: char) -> (found: bool)
    ensures
        found == is_special(c),
{
    c == '\\' || c == '.' || c == '^' || c == '$' || c == '|' || c == '(' || c == ')' || c == '['
        || c == ']' || c == '{' || c == '}' || c == '*' || c == '+' || c == '?'
}

fn read_unit(s: &Vec<char>, at: usize) -> (got: Option<(CharSet, usize)>)
    ensures
        agrees(got, parse_unit(s@, at as int)),
        got matches Some((_, next)) ==> at < next <= s.len(),
{
    if at >= s.len() {
        return None;
    }
    let c = s[at];
    if c == '\\' {
        if at + 1 < s.len() {
            match read_escape(s[at + 1]) {
                Some(set) => Some((set, at + 2)),
                None => None,
            }
        } else {
            None
        }
    } else if c == '[' || c == ']' || c == '^' || c == '-' {
        None
    } else {
        Some((CharSet::Just(c), at + 1))
    }
}

fn read_member(s: &Vec<char>, at: usize) -> (got: Option<(CharSet, usize)>)
    ensures
        agrees(got, parse_member(s@, at as int)),
        got matches Some((_, next)) ==> at < next <= s.len(),
{
    match read_unit(s, at) {
        None => None,
        Some((low, next)) => {
            if next < s.len() && s[next] == '-' {
                match low {
                    CharSet::Just(first) => match read_unit(s, next + 1) {
                        Some((CharSet::Just(last), end)) => {
                            if first <= last {
                                Some((CharSet::Span(first, last), end))
                            } else {
                                None
                            }
                        },
                        _ => None,
                    },
                    _ => None,
                }
            } else {
                Some((low, next))
            }
        },
    }
}

fn read_members(s: &Vec<char>, at: usize) -> (got: Option<(CharSet, usize)>)
    ensures
        agrees(got, parse_members(s@, at as int)),
        got matches Some((_, next)) ==> at < next < s.len() && s[next as int] == ']',
    decreases s.len() - at,
{
    match read_member(s, at) {
        None => None,
        Some((first, next)) => {
            if next < s.len() && s[next] == ']' {
                Some((first, next))
            } else {
                match read_members(s, next) {
                    None => None,
                    Some((rest, end)) => Some(
                        (CharSet::Union(Box::new(first), Box::new(rest)), end),
                    ),
                }
            }
        },
    }
}

fn read_list(s: &Vec<char>, at: usize) -> (got: Option<(CharSet, usize)>)
    ensures
        agrees(got, parse_list(s@, at as int)),
        got matches Some((_, next)) ==> at < next <= s.len(),
{
    let inverted = at < s.len() && s[at] == '^';
    let from: usize = if inverted {
        at + 1
    } else {
        at
    };
    match read_members(s, from) {
        None => None,
        Some((set, end)) => {
            if inverted {
                Some((CharSet::Outside(Box::new(set)), end + 1))
            } else {
                Some((set, end + 1))
            }
        },
    }
}

fn read_atom(s: &Vec<char>, at: usize) -> (got: Option<(Pattern, usize)>)
    ensures
        agrees(got, parse_atom(s@, at as int)),
        got matches Some((_, next)) ==> at < next <= s.len(),
    decreases s.len() - at, 0int,
{
    if at >= s.len() {
        return None;
    }
    let c = s[at];
    if c == '(' {
        match read_alternatives(s, at + 1) {
            None => None,
            Some((inner, end)) => {
                if end < s.len() && s[end] == ')' {
                    Some((inner, end + 1))
                } else {
                    None
                }
            },
        }
    } else if c == '[' {
        match read_list(s, at + 1) {
            None => None,
            Some((set, end)) => Some((Pattern::Chars(set), end)),
        }
    } else if c == '\\' {
        if at + 1 < s.len() {
            match read_escape(s[at + 1]) {
                Some(set) => Some((Pattern::Chars(set), at + 2)),
                None => None,
            }
        } else {
            None
        }
    } else if c == '.' {
        Some((Pattern::Chars(CharSet::Any), at + 1))
    } else if c == '^' {
        Some((Pattern::Start, at + 1))
    } else if c == '$' {
        Some((Pattern::End, at + 1))
    } else if special(c) {
        None
    } else {
        Some((Pattern::Chars(CharSet::Just(c)), at + 1))
    }
}

fn read_piece(s: &Vec<char>, at: usize) -> (got: Option<(Pattern, usize)>)
    ensures
        agrees(got, parse_piece(s@, at as int)),
        got matches Some((_, next)) ==> at < next <= s.len(),
    decreases s.len() - at, 1int,
{
    match read_atom(s, at) {
        None => None,
        Some((atom, next)) => {
            if next < s.len() && s[next] == '*' {
                Some((Pattern::Many(Box::new(atom)), next + 1))
            } else if next < s.len() && s[next] == '+' {
                Some((Pattern::Several(Box::new(atom)), next + 1))
            } else if next < s.len() && s[next] == '?' {
                Some((Pattern::Maybe(Box::new(atom)), next + 1))
            } else {
                Some((atom, next))
            }
        },
    }
}

fn chained(first: Pattern, rest: Pattern) -> (whole: Pattern)
    ensures
        whole == chain(first, rest),
{
    match rest {
        Pattern::Empty => first,
        other => Pattern::Then(Box::new(first), Box::new(other)),
    }
}

fn read_alternative(s: &Vec<char>, at: usize) -> (got: Option<(Pattern, usize)>)
    requires
        at <= s.len(),
    ensures
        agrees(got, parse_alternative(s@, at as int)),
        got matches Some((_, next)) ==> at <= next <= s.len(),
    decreases s.len() - at, 2int,
{
    if at >= s.len() || s[at] == '|' || s[at] == ')' {
        return Some((Pattern::Empty, at));
    }
    match read_piece(s, at) {
        None => None,
        Some((first, next)) => match read_alternative(s, next) {
            None => None,
            Some((rest, end)) => Some((chained(first, rest), end)),
        },
    }
}

fn read_alternatives(s: &Vec<char>, at: usize) -> (got: Option<(Pattern, usize)>)
    requires
        at <= s.len(),
    ensures
        agrees(got, parse_alternatives(s@, at as int)),
        got matches Some((_, next)) ==> at <= next <= s.len(),
    decreases s.len() - at, 3int,
{
    match read_alternative(s, at) {
        None => None,
        Some((first, next)) => {
            if next < s.len() && s[next] == '|' {
                match read_alternatives(s, next + 1) {
                    None => None,
                    Some((rest, end)) => Some(
                        (Pattern::Either(Box::new(first), Box::new(rest)), end),
                    ),
                }
            } else {
                Some((first, next))
            }
        },
    }
}

impl Pattern {
    /// Compiles the written form of a pattern. `None` says that `source` is
    /// not the written form of any pattern.
    pub fn compile(source: &str) -> (got: Option<Pattern>)
        ensures
            got == parse_pattern(source@),
    {
        let letters = chars_of(source);
        match read_alternatives(&letters, 0) {
            None => None,
            Some((whole, end)) => {
                if end == letters.len() {
                    Some(whole)
                } else {
                    None
                }
            },
        }
    }
}

/// The pattern that covers the characters of `text`, one after the other,
/// and nothing else.
pub open spec fn literal(text: Seq<char>) -> Pattern
    decreases text.len(),
{
    if text.len() == 0 {
        Pattern::Empty
    } else {
        chain(Pattern::Chars(CharSet::Just(text[0])), literal(text.skip(1)))
    }
}

/// Whether no character of `text` has a meaning of its own in a pattern.
pub open spec fn is_plain(text: Seq<char>) -> bool {
    forall|at: int| 0 <= at < text.len() ==> !is_special(#[trigger] text[at])
}

/// What is read from `at` in a text of plain characters is the rest of the
/// text, taken literally.
proof fn lemma_plain_text_reads(s: Seq<char>, at: int)
    requires
        is_plain(s),
        0 <= at <= s.len(),
    ensures
        parse_alternative(s, at) == Some((literal(s.skip(at)), s.len() as int)),
    decreases s.len() - at,
{
    reveal_with_fuel(parse_atom, 2);
    reveal_with_fuel(parse_piece, 2);
    reveal_with_fuel(parse_alternative, 2);
    if at < s.len() {
        lemma_plain_text_reads(s, at + 1);
        assert(!is_special(s[at]));
        if at + 1 < s.len() {
            assert(!is_special(s[at + 1]));
        }
        assert(s.skip(at)[0] == s[at]);
        assert(s.skip(at).skip(1) =~= s.skip(at + 1));
        assert(parse_piece(s, at) == Some((Pattern::Chars(CharSet::Just(s[at])), at + 1)));
    } else {
        assert(s.skip(at).len() == 0);
    }
}

/// A text of plain characters is the written form of the pattern that takes
/// it literally.
pub proof fn lemma_plain_text_compiles(s: Seq<char>)
    requires
        is_plain(s),
    ensures
        parse_pattern(s) == Some(literal(s)),
{
    reveal_with_fuel(parse_alternatives, 2);
    lemma_plain_text_reads(s, 0);
    assert(s.skip(0) =~= s);
    if s.len() > 0 {
        assert(!is_special(s[s.len() - 1]));
    }
}

/// A text taken literally covers the stretches that hold the text, and no
/// other.
pub proof fn lemma_literal_spans(s: Seq<char>, text: Seq<char>, from: int, to: int)
    ensures
        literal(s).spans(text, from, to) <==> 0 <= from && to == from + s.len() && to <= text.len()
            && text.subrange(from, to) == s,
    decreases s.len(),
{
    reveal_with_fuel(Pattern::spans, 2);
    if s.len() == 0 {
        if 0 <= from == to <= text.len() {
            assert(text.subrange(from, to) =~= s);
        }
    } else {
        let rest = literal(s.skip(1));
        lemma_literal_spans(s.skip(1), text, from + 1, to);
        lemma_char_then(s[0], rest, text, from, to);
        if s.len() == 1 {
            assert(rest is Empty);
        } else {
            assert(s.skip(1).len() > 0);
            assert(!(rest is Empty));
        }
        if literal(s).spans(text, from, to) {
            assert(text.subrange(from, to) =~= s) by {
                let part = text.subrange(from, to);
                if s.len() > 1 {
                    let tail = text.subrange(from + 1, to);
                    assert(tail == s.skip(1));
                    assert forall|at: int| 0 <= at < s.len() implies part[at] == s[at] by {
                        if at > 0 {
                            assert(tail[at - 1] == s.skip(1)[at - 1]);
                        }
                    }
                }
            }
        }
        if 0 <= from && to == from + s.len() && to <= text.len() && text.subrange(from, to) == s {
            assert(text.subrange(from, to)[0] == text[from]);
            assert(text.subrange(from + 1, to) =~= s.skip(1));
        }
    }
}

/// A text of plain characters, read as a pattern, accepts itself and
/// nothing else.
pub proof fn lemma_plain_text_accepts_itself(s: Seq<char>, text: Seq<char>)
    requires
        is_plain(s),
    ensures
        parse_pattern(s) matches Some(pattern) && (pattern.accepts(text) <==> text == s),
{
    lemma_plain_text_compiles(s);
    lemma_literal_spans(s, text, 0, text.len() as int);
    assert(text.subrange(0, text.len() as int) =~= text);
}

} // verus!
