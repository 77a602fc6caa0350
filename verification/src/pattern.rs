//! Region patterns: what a pattern is and which texts it accepts.

use vstd::prelude::*;
use crate::charset::CharSet;

verus! {

/// A compiled pattern. A pattern accepts a text when it covers the text from
/// its first character to its last: there is no search inside the text.
#[derive(Debug, PartialEq, Eq)]
pub enum Pattern {
    /// Covers nothing, anywhere.
    Empty,
    /// Covers nothing, and only at the start of the text.
    Start,
    /// Covers nothing, and only at the end of the text.
    End,
    /// Covers one character of the set.
    Chars(CharSet),
    /// Covers what the first covers, followed by what the second covers.
    Then(Box<Pattern>, Box<Pattern>),
    /// Covers what either of the two covers.
    Either(Box<Pattern>, Box<Pattern>),
    /// Covers what the inner pattern covers, any number of times in a row.
    Many(Box<Pattern>),
    /// Covers what the inner pattern covers, once or more in a row.
    Several(Box<Pattern>),
    /// Covers what the inner pattern covers, or nothing.
    Maybe(Box<Pattern>),
}

/// Whether `mid` lies between `low` and `high`, both included.
pub open spec fn between(low: int, mid: int, high: int) -> bool {
    low <= mid <= high
}

impl Pattern {
    /// Whether the pattern covers the characters of `text` from position
    /// `from` up to, not including, position `to`.
    pub open spec fn spans(self, text: Seq<char>, from: int, to: int) -> bool
        decreases self, 0int, 0int,
    {
        &&& 0 <= from <= to <= text.len()
        &&& match self {
            Pattern::Empty => from == to,
            Pattern::Start => from == to && from == 0,
            Pattern::End => from == to && to == text.len(),
            Pattern::Chars(set) => to == from + 1 && set.holds(text[from]),
            Pattern::Then(first, second) => exists|mid: int|
                #[trigger] between(from, mid, to) && first.spans(text, from, mid) && second.spans(
                    text,
                    mid,
                    to,
                ),
            Pattern::Either(left, right) => left.spans(text, from, to) || right.spans(
                text,
                from,
                to,
            ),
            Pattern::Many(inner) => inner.repeats(text, from, to),
            Pattern::Several(inner) => exists|mid: int|
                #[trigger] between(from, mid, to) && inner.spans(text, from, mid) && inner.repeats(
                    text,
                    mid,
                    to,
                ),
            Pattern::Maybe(inner) => from == to || inner.spans(text, from, to),
        }
    }

    /// Whether the characters from `from` up to `to` split into consecutive
    /// pieces, none of them empty, each of which the pattern covers. No piece
    /// at all is such a split of an empty stretch; an empty piece would add
    /// nothing to what a split covers.
    pub open spec fn repeats(self, text: Seq<char>, from: int, to: int) -> bool
        decreases self, 1int, to - from,
    {
        &&& 0 <= from <= to <= text.len()
        &&& (from == to || exists|mid: int|
            #[trigger] between(from + 1, mid, to) && self.spans(text, from, mid) && self.repeats(
                text,
                mid,
                to,
            ))
    }

    /// Whether the pattern accepts `text`: whether it covers all of it.
    pub open spec fn accepts(self, text: Seq<char>) -> bool {
        self.spans(text, 0, text.len() as int)
    }
}

/// Repetition is what it is held to be: any number of times is not at all,
/// or once and then any number of times, whether or not the one time covers
/// anything.
pub proof fn lemma_many_unfolds(inner: Pattern, text: Seq<char>, from: int, to: int)
    ensures
        Pattern::Many(Box::new(inner)).spans(text, from, to) <==> 0 <= from <= to <= text.len()
            && (from == to || exists|mid: int|
            #[trigger] between(from, mid, to) && inner.spans(text, from, mid) && Pattern::Many(
                Box::new(inner),
            ).spans(text, mid, to)),
{
    let many = Pattern::Many(Box::new(inner));
    reveal_with_fuel(Pattern::spans, 2);
    if many.spans(text, from, to) && from != to {
        let mid = choose|mid: int|
            #[trigger] between(from + 1, mid, to) && inner.spans(text, from, mid) && inner.repeats(
                text,
                mid,
                to,
            );
        assert(between(from, mid, to) && inner.spans(text, from, mid) && many.spans(
            text,
            mid,
            to,
        ));
    }
    if 0 <= from <= to <= text.len() && from != to && exists|mid: int|
        #[trigger] between(from, mid, to) && inner.spans(text, from, mid) && many.spans(
            text,
            mid,
            to,
        ) {
        let mid = choose|mid: int|
            #[trigger] between(from, mid, to) && inner.spans(text, from, mid) && many.spans(
                text,
                mid,
                to,
            );
        if mid != from {
            assert(between(from + 1, mid, to) && inner.spans(text, from, mid) && inner.repeats(
                text,
                mid,
                to,
            ));
        }
    }
}

/// Once or more is once and then any number of times; once or not at all is
/// once, or nothing.
pub proof fn lemma_several_and_maybe(inner: Pattern, text: Seq<char>, from: int, to: int)
    ensures
        Pattern::Several(Box::new(inner)).spans(text, from, to) <==> Pattern::Then(
            Box::new(inner),
            Box::new(Pattern::Many(Box::new(inner))),
        ).spans(text, from, to),
        Pattern::Maybe(Box::new(inner)).spans(text, from, to) <==> Pattern::Either(
            Box::new(inner),
            Box::new(Pattern::Empty),
        ).spans(text, from, to),
{
    let many = Pattern::Many(Box::new(inner));
    let several = Pattern::Several(Box::new(inner));
    let then = Pattern::Then(Box::new(inner), Box::new(many));
    reveal_with_fuel(Pattern::spans, 3);
    if several.spans(text, from, to) {
        let mid = choose|mid: int|
            #[trigger] between(from, mid, to) && inner.spans(text, from, mid) && inner.repeats(
                text,
                mid,
                to,
            );
        assert(between(from, mid, to) && inner.spans(text, from, mid) && many.spans(
            text,
            mid,
            to,
        ));
    }
    if then.spans(text, from, to) {
        let mid = choose|mid: int|
            #[trigger] between(from, mid, to) && inner.spans(text, from, mid) && many.spans(
                text,
                mid,
                to,
            );
        assert(between(from, mid, to) && inner.spans(text, from, mid) && inner.repeats(
            text,
            mid,
            to,
        ));
    }
}

/// Whether every character of `text` from `from` up to `to` belongs to
/// `set`.
pub open spec fn all_in(set: CharSet, text: Seq<char>, from: int, to: int) -> bool {
    forall|at: int| from <= at < to ==> set.holds(#[trigger] text[at])
}

/// A row of stretches of one character of a set is a stretch of characters
/// of the set, and the other way round.
pub proof fn lemma_repeats_of_set(set: CharSet, text: Seq<char>, from: int, to: int)
    ensures
        Pattern::Chars(set).repeats(text, from, to) <==> 0 <= from <= to <= text.len() && all_in(
            set,
            text,
            from,
            to,
        ),
    decreases to - from,
{
    let p = Pattern::Chars(set);
    reveal_with_fuel(Pattern::spans, 2);
    if 0 <= from < to <= text.len() {
        lemma_repeats_of_set(set, text, from + 1, to);
        if p.repeats(text, from, to) {
            let mid = choose|mid: int|
                #[trigger] between(from + 1, mid, to) && p.spans(text, from, mid) && p.repeats(
                    text,
                    mid,
                    to,
                );
            assert(mid == from + 1);
            assert forall|at: int| from <= at < to implies set.holds(#[trigger] text[at]) by {
                if at != from {
                    assert(all_in(set, text, from + 1, to));
                }
            }
        }
        if all_in(set, text, from, to) {
            assert(set.holds(text[from]));
            assert(p.spans(text, from, from + 1));
            assert(all_in(set, text, from + 1, to));
            assert(between(from + 1, from + 1, to) && p.spans(text, from, from + 1) && p.repeats(
                text,
                from + 1,
                to,
            ));
        }
    }
}

/// One or more characters of a set cover a stretch that is not empty and
/// holds characters of the set only, and no other.
pub proof fn lemma_several_of_set(set: CharSet, text: Seq<char>, from: int, to: int)
    ensures
        Pattern::Several(Box::new(Pattern::Chars(set))).spans(text, from, to) <==> 0 <= from < to
            <= text.len() && all_in(set, text, from, to),
{
    let one = Pattern::Chars(set);
    let p = Pattern::Several(Box::new(one));
    reveal_with_fuel(Pattern::spans, 3);
    if p.spans(text, from, to) {
        let mid = choose|mid: int|
            #[trigger] between(from, mid, to) && one.spans(text, from, mid) && one.repeats(
                text,
                mid,
                to,
            );
        lemma_repeats_of_set(set, text, mid, to);
        assert forall|at: int| from <= at < to implies set.holds(#[trigger] text[at]) by {
            if at != from {
                assert(all_in(set, text, mid, to));
            }
        }
    }
    if 0 <= from < to <= text.len() && all_in(set, text, from, to) {
        lemma_repeats_of_set(set, text, from + 1, to);
        assert(set.holds(text[from]));
        assert(all_in(set, text, from + 1, to));
        assert(between(from, from + 1, to) && one.spans(text, from, from + 1) && one.repeats(
            text,
            from + 1,
            to,
        ));
    }
}

/// A character followed by a pattern covers a stretch that starts with the
/// character and goes on with what the pattern covers, and no other.
pub proof fn lemma_char_then(c: char, rest: Pattern, text: Seq<char>, from: int, to: int)
    ensures
        Pattern::Then(Box::new(Pattern::Chars(CharSet::Just(c))), Box::new(rest)).spans(
            text,
            from,
            to,
        ) <==> 0 <= from < to <= text.len() && text[from] == c && rest.spans(text, from + 1, to),
{
    let one = Pattern::Chars(CharSet::Just(c));
    let p = Pattern::Then(Box::new(one), Box::new(rest));
    reveal_with_fuel(Pattern::spans, 3);
    if p.spans(text, from, to) {
        let mid = choose|mid: int|
            #[trigger] between(from, mid, to) && one.spans(text, from, mid) && rest.spans(
                text,
                mid,
                to,
            );
        assert(mid == from + 1);
    }
    if 0 <= from < to <= text.len() && text[from] == c && rest.spans(text, from + 1, to) {
        assert(between(from, from + 1, to) && one.spans(text, from, from + 1) && rest.spans(
            text,
            from + 1,
            to,
        ));
    }
}

/// The start of the text followed by a pattern covers what the pattern
/// covers from the start of the text, and nothing else.
pub proof fn lemma_start_then(rest: Pattern, text: Seq<char>, from: int, to: int)
    ensures
        Pattern::Then(Box::new(Pattern::Start), Box::new(rest)).spans(text, from, to) <==> from
            == 0 && rest.spans(text, 0, to),
{
    let p = Pattern::Then(Box::new(Pattern::Start), Box::new(rest));
    reveal_with_fuel(Pattern::spans, 3);
    if p.spans(text, from, to) {
        let mid = choose|mid: int|
            #[trigger] between(from, mid, to) && Pattern::Start.spans(text, from, mid)
                && rest.spans(text, mid, to);
        assert(mid == 0);
    }
    if from == 0 && rest.spans(text, 0, to) {
        assert(between(0, 0, to) && Pattern::Start.spans(text, 0, 0) && rest.spans(text, 0, to));
    }
}

} // verus!
