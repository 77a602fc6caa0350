//! Deciding whether a pattern accepts a text.
//!
//! The text is walked with sets of positions: from the positions that are
//! marked, a pattern leads to the positions at which a stretch that it covers
//! can end. No step looks back: the work grows with the length of the text
//! and the size of the pattern, not with the number of ways in which the
//! pattern can be laid over the text.

use vstd::prelude::*;
use crate::pattern::{between, Pattern};
use crate::text::chars_of;

verus! {

/// Whether the pattern covers a stretch of `text` that starts at a marked
/// position and ends at `to`.
pub open spec fn leads_to(p: Pattern, text: Seq<char>, marks: Seq<bool>, to: int) -> bool {
    exists|from: int|
        0 <= from <= to && from < marks.len() && marks[from] && #[trigger] p.spans(text, from, to)
}

/// Whether a row of stretches that the pattern covers starts at a marked
/// position and ends at `to`.
pub open spec fn repeats_to(p: Pattern, text: Seq<char>, marks: Seq<bool>, to: int) -> bool {
    exists|from: int|
        0 <= from <= to && from < marks.len() && marks[from] && #[trigger] p.repeats(
            text,
            from,
            to,
        )
}

/// How many positions are marked.
pub open spec fn marked(marks: Seq<bool>) -> nat
    decreases marks.len(),
{
    if marks.len() == 0 {
        0
    } else {
        marked(marks.drop_last()) + if marks.last() {
            1nat
        } else {
            0nat
        }
    }
}

proof fn lemma_marked_bound(marks: Seq<bool>)
    ensures
        marked(marks) <= marks.len(),
    decreases marks.len(),
{
    if marks.len() > 0 {
        lemma_marked_bound(marks.drop_last());
    }
}

proof fn lemma_marked_grows(marks: Seq<bool>, at: int)
    requires
        0 <= at < marks.len(),
        !marks[at],
    ensures
        marked(marks.update(at, true)) == marked(marks) + 1,
    decreases marks.len(),
{
    let after = marks.update(at, true);
    if at == marks.len() - 1 {
        assert(after.drop_last() =~= marks.drop_last());
    } else {
        lemma_marked_grows(marks.drop_last(), at);
        assert(after.drop_last() =~= marks.drop_last().update(at, true));
    }
}

/// A row of stretches followed by one more stretch is a row of stretches.
proof fn lemma_repeats_one_more(p: Pattern, text: Seq<char>, from: int, mid: int, to: int)
    requires
        p.repeats(text, from, mid),
        p.spans(text, mid, to),
    ensures
        p.repeats(text, from, to),
    decreases mid - from,
{
    if mid == to {
    } else if from == mid {
        assert(p.repeats(text, to, to));
        assert(between(from + 1, to, to) && p.spans(text, from, to) && p.repeats(text, to, to));
    } else {
        let next = choose|next: int|
            #[trigger] between(from + 1, next, mid) && p.spans(text, from, next) && p.repeats(
                text,
                next,
                mid,
            );
        lemma_repeats_one_more(p, text, next, mid, to);
        assert(between(from + 1, next, to) && p.spans(text, from, next) && p.repeats(
            text,
            next,
            to,
        ));
    }
}

/// Whether every stretch that the pattern covers from a marked position ends
/// at a marked position.
pub open spec fn closed(p: Pattern, text: Seq<char>, marks: Seq<bool>) -> bool {
    forall|from: int, to: int|
        0 <= from <= to < marks.len() && marks[from] && #[trigger] p.spans(text, from, to)
            ==> marks[to]
}

/// In a closed set of positions a row of stretches ends at a marked position.
proof fn lemma_closed_holds_rows(
    p: Pattern,
    text: Seq<char>,
    marks: Seq<bool>,
    from: int,
    to: int,
)
    requires
        closed(p, text, marks),
        marks.len() == text.len() + 1,
        0 <= from < marks.len(),
        marks[from],
        p.repeats(text, from, to),
    ensures
        marks[to],
    decreases to - from,
{
    if from != to {
        let next = choose|next: int|
            #[trigger] between(from + 1, next, to) && p.spans(text, from, next) && p.repeats(
                text,
                next,
                to,
            );
        lemma_closed_holds_rows(p, text, marks, next, to);
    }
}

/// The positions `0` to `last`, of which only the first is marked.
fn only_first(last: usize) -> (out: Vec<bool>)
    ensures
        out.len() == last + 1,
        out[0],
        forall|at: int| 0 < at <= last ==> !out[at],
{
    let mut out: Vec<bool> = Vec::new();
    out.push(true);
    while out.len() <= last
        invariant
            1 <= out.len() <= last + 1,
            out[0],
            forall|at: int| 0 < at < out.len() ==> !out[at],
        decreases last + 1 - out.len(),
    {
        out.push(false);
    }
    out
}

/// A set of `slots` positions, none of them marked.
fn unmarked(slots: usize) -> (out: Vec<bool>)
    ensures
        out.len() == slots,
        forall|at: int| 0 <= at < slots ==> !out[at],
{
    let mut out: Vec<bool> = Vec::new();
    while out.len() < slots
        invariant
            out.len() <= slots,
            forall|at: int| 0 <= at < out.len() ==> !out[at],
        decreases slots - out.len(),
    {
        out.push(false);
    }
    out
}

/// The positions that are marked in `left` or in `right`.
fn either_marked(left: &Vec<bool>, right: &Vec<bool>) -> (out: Vec<bool>)
    requires
        left.len() == right.len(),
    ensures
        out.len() == left.len(),
        forall|at: int| 0 <= at < out.len() ==> out[at] == (left[at] || right[at]),
{
    let mut out: Vec<bool> = Vec::new();
    while out.len() < left.len()
        invariant
            left.len() == right.len(),
            out.len() <= left.len(),
            forall|at: int| 0 <= at < out.len() ==> out[at] == (left[at] || right[at]),
        decreases left.len() - out.len(),
    {
        let at: usize = out.len();
        out.push(left[at] || right[at]);
    }
    out
}

/// The positions at which a stretch that the pattern covers can end, when it
/// starts at one of the marked positions.
fn advance(p: &Pattern, text: &Vec<char>, marks: &Vec<bool>) -> (out: Vec<bool>)
    requires
        marks.len() == text.len() + 1,
    ensures
        out.len() == marks.len(),
        forall|to: int| 0 <= to < out.len() ==> out[to] == leads_to(*p, text@, marks@, to),
    decreases p, 0int,
{
    let slots: usize = marks.len();
    match p {
        Pattern::Empty => {
            let out = marks.clone();
            assert forall|to: int| 0 <= to < out.len() implies out[to] == leads_to(
                *p,
                text@,
                marks@,
                to,
            ) by {
                if marks[to] {
                    assert(p.spans(text@, to, to));
                }
            }
            out
        },
        Pattern::Start => {
            let mut out = unmarked(slots);
            out.set(0, marks[0]);
            assert forall|to: int| 0 <= to < out.len() implies out[to] == leads_to(
                *p,
                text@,
                marks@,
                to,
            ) by {
                if to == 0 && marks[0] {
                    assert(p.spans(text@, 0, 0));
                }
            }
            out
        },
        Pattern::End => {
            let mut out = unmarked(slots);
            out.set(slots - 1, marks[slots - 1]);
            assert forall|to: int| 0 <= to < out.len() implies out[to] == leads_to(
                *p,
                text@,
                marks@,
                to,
            ) by {
                if to == slots - 1 && marks[to] {
                    assert(p.spans(text@, to, to));
                }
            }
            out
        },
        Pattern::Chars(set) => {
            let mut out = unmarked(slots);
            let mut at: usize = 0;
            while at < text.len()
                invariant
                    at <= text.len(),
                    slots == text.len() + 1,
                    marks.len() == slots,
                    out.len() == slots,
                    *p == Pattern::Chars(*set),
                    !out[0],
                    forall|to: int|
                        0 < to <= at ==> out[to] == (marks[to - 1] && set.holds(text[to - 1])),
                    forall|to: int| at < to < slots ==> !out[to],
                decreases text.len() - at,
            {
                let found = marks[at] && set.contains(text[at]);
                out.set(at + 1, found);
                at += 1;
            }
            assert forall|to: int| 0 <= to < out.len() implies out[to] == leads_to(
                *p,
                text@,
                marks@,
                to,
            ) by {
                if to > 0 && out[to] {
                    assert(p.spans(text@, to - 1, to));
                }
            }
            out
        },
        Pattern::Then(first, second) => {
            let halfway = advance(first, text, marks);
            let out = advance(second, text, &halfway);
            assert forall|to: int| 0 <= to < out.len() implies out[to] == leads_to(
                *p,
                text@,
                marks@,
                to,
            ) by {
                if out[to] {
                    let mid = choose|mid: int|
                        0 <= mid <= to && mid < halfway.len() && halfway[mid]
                            && #[trigger] second.spans(text@, mid, to);
                    let from = choose|from: int|
                        0 <= from <= mid && from < marks.len() && marks[from]
                            && #[trigger] first.spans(text@, from, mid);
                    assert(between(from, mid, to) && first.spans(text@, from, mid)
                        && second.spans(text@, mid, to));
                    assert(p.spans(text@, from, to));
                }
                if leads_to(*p, text@, marks@, to) {
                    let from = choose|from: int|
                        0 <= from <= to && from < marks.len() && marks[from] && #[trigger] p.spans(
                            text@,
                            from,
                            to,
                        );
                    let mid = choose|mid: int|
                        #[trigger] between(from, mid, to) && first.spans(text@, from, mid)
                            && second.spans(text@, mid, to);
                    assert(leads_to(**first, text@, marks@, mid));
                    assert(halfway[mid]);
                    assert(leads_to(**second, text@, halfway@, to));
                }
            }
            out
        },
        Pattern::Either(left, right) => {
            let by_left = advance(left, text, marks);
            let by_right = advance(right, text, marks);
            let out = either_marked(&by_left, &by_right);
            assert forall|to: int| 0 <= to < out.len() implies out[to] == leads_to(
                *p,
                text@,
                marks@,
                to,
            ) by {
                if by_left[to] {
                    let from = choose|from: int|
                        0 <= from <= to && from < marks.len() && marks[from]
                            && #[trigger] left.spans(text@, from, to);
                    assert(p.spans(text@, from, to));
                }
                if by_right[to] {
                    let from = choose|from: int|
                        0 <= from <= to && from < marks.len() && marks[from]
                            && #[trigger] right.spans(text@, from, to);
                    assert(p.spans(text@, from, to));
                }
                if leads_to(*p, text@, marks@, to) {
                    let from = choose|from: int|
                        0 <= from <= to && from < marks.len() && marks[from] && #[trigger] p.spans(
                            text@,
                            from,
                            to,
                        );
                    if left.spans(text@, from, to) {
                        assert(leads_to(**left, text@, marks@, to));
                    } else {
                        assert(right.spans(text@, from, to));
                        assert(leads_to(**right, text@, marks@, to));
                    }
                }
            }
            out
        },
        Pattern::Maybe(inner) => {
            let by_inner = advance(inner, text, marks);
            let out = either_marked(marks, &by_inner);
            assert forall|to: int| 0 <= to < out.len() implies out[to] == leads_to(
                *p,
                text@,
                marks@,
                to,
            ) by {
                if marks[to] {
                    assert(p.spans(text@, to, to));
                }
                if by_inner[to] {
                    let from = choose|from: int|
                        0 <= from <= to && from < marks.len() && marks[from]
                            && #[trigger] inner.spans(text@, from, to);
                    assert(p.spans(text@, from, to));
                }
                if leads_to(*p, text@, marks@, to) {
                    let from = choose|from: int|
                        0 <= from <= to && from < marks.len() && marks[from] && #[trigger] p.spans(
                            text@,
                            from,
                            to,
                        );
                    if from != to {
                        assert(inner.spans(text@, from, to));
                    }
                }
            }
            out
        },
        Pattern::Many(inner) => {
            let out = advance_rows(inner, text, marks);
            assert forall|to: int| 0 <= to < out.len() implies out[to] == leads_to(
                *p,
                text@,
                marks@,
                to,
            ) by {
                if out[to] {
                    let from = choose|from: int|
                        0 <= from <= to && from < marks.len() && marks[from]
                            && #[trigger] inner.repeats(text@, from, to);
                    assert(p.spans(text@, from, to));
                }
                if leads_to(*p, text@, marks@, to) {
                    let from = choose|from: int|
                        0 <= from <= to && from < marks.len() && marks[from] && #[trigger] p.spans(
                            text@,
                            from,
                            to,
                        );
                    assert(inner.repeats(text@, from, to));
                }
            }
            out
        },
        Pattern::Several(inner) => {
            let once = advance(inner, text, marks);
            let out = advance_rows(inner, text, &once);
            assert forall|to: int| 0 <= to < out.len() implies out[to] == leads_to(
                *p,
                text@,
                marks@,
                to,
            ) by {
                if out[to] {
                    let mid = choose|mid: int|
                        0 <= mid <= to && mid < once.len() && once[mid]
                            && #[trigger] inner.repeats(text@, mid, to);
                    let from = choose|from: int|
                        0 <= from <= mid && from < marks.len() && marks[from]
                            && #[trigger] inner.spans(text@, from, mid);
                    assert(between(from, mid, to) && inner.spans(text@, from, mid)
                        && inner.repeats(text@, mid, to));
                    assert(p.spans(text@, from, to));
                }
                if leads_to(*p, text@, marks@, to) {
                    let from = choose|from: int|
                        0 <= from <= to && from < marks.len() && marks[from] && #[trigger] p.spans(
                            text@,
                            from,
                            to,
                        );
                    let mid = choose|mid: int|
                        #[trigger] between(from, mid, to) && inner.spans(text@, from, mid)
                            && inner.repeats(text@, mid, to);
                    assert(leads_to(**inner, text@, marks@, mid));
                    assert(once[mid]);
                    assert(repeats_to(**inner, text@, once@, to));
                }
            }
            out
        },
    }
}

/// The positions at which a row of stretches that the pattern covers can end,
/// when it starts at one of the marked positions.
fn advance_rows(p: &Pattern, text: &Vec<char>, marks: &Vec<bool>) -> (out: Vec<bool>)
    requires
        marks.len() == text.len() + 1,
    ensures
        out.len() == marks.len(),
        forall|to: int| 0 <= to < out.len() ==> out[to] == repeats_to(*p, text@, marks@, to),
    decreases p, 1int,
{
    let slots: usize = marks.len();
    let mut out = marks.clone();
    assert forall|to: int| 0 <= to < slots && out[to] implies repeats_to(
        *p,
        text@,
        marks@,
        to,
    ) by {
        assert(p.repeats(text@, to, to));
    }
    loop
        invariant
            slots == text.len() + 1,
            marks.len() == slots,
            out.len() == slots,
            forall|at: int| 0 <= at < slots && marks[at] ==> out[at],
            forall|to: int| 0 <= to < slots && out[to] ==> repeats_to(*p, text@, marks@, to),
        ensures
            out.len() == slots,
            forall|at: int| 0 <= at < slots && marks[at] ==> out[at],
            forall|to: int| 0 <= to < slots && out[to] ==> repeats_to(*p, text@, marks@, to),
            closed(*p, text@, out@),
        decreases slots - marked(out@),
    {
        let step = advance(p, text, &out);
        let ghost before = out@;
        let mut grew = false;
        let mut at: usize = 0;
        proof {
            lemma_marked_bound(out@);
        }
        while at < slots
            invariant
                at <= slots,
                slots == text.len() + 1,
                marks.len() == slots,
                out.len() == slots,
                step.len() == slots,
                before.len() == slots,
                forall|to: int| 0 <= to < slots ==> step[to] == leads_to(*p, text@, before, to),
                forall|to: int|
                    0 <= to < slots && before[to] ==> repeats_to(*p, text@, marks@, to),
                forall|to: int| 0 <= to < at ==> #[trigger] out[to] == (before[to] || step[to]),
                forall|to: int| at <= to < slots ==> #[trigger] out[to] == before[to],
                !grew ==> out@ == before,
                grew ==> marked(out@) > marked(before),
                marked(out@) <= slots,
            decreases slots - at,
        {
            if step[at] && !out[at] {
                proof {
                    lemma_marked_grows(out@, at as int);
                    lemma_marked_bound(out@.update(at as int, true));
                }
                out.set(at, true);
                grew = true;
            }
            at += 1;
        }
        assert forall|to: int| 0 <= to < slots && out[to] implies repeats_to(
            *p,
            text@,
            marks@,
            to,
        ) by {
            if !before[to] {
                let mid = choose|mid: int|
                    0 <= mid <= to && mid < before.len() && before[mid] && #[trigger] p.spans(
                        text@,
                        mid,
                        to,
                    );
                let from = choose|from: int|
                    0 <= from <= mid && from < marks.len() && marks[from] && #[trigger] p.repeats(
                        text@,
                        from,
                        mid,
                    );
                lemma_repeats_one_more(*p, text@, from, mid, to);
            }
        }
        if !grew {
            assert forall|from: int, to: int|
                0 <= from <= to < out@.len() && out@[from] && #[trigger] p.spans(
                    text@,
                    from,
                    to,
                ) implies out@[to] by {
                assert(leads_to(*p, text@, before, to));
            }
            break ;
        }
    }
    assert forall|to: int| 0 <= to < out.len() implies out[to] == repeats_to(
        *p,
        text@,
        marks@,
        to,
    ) by {
        if repeats_to(*p, text@, marks@, to) {
            let from = choose|from: int|
                0 <= from <= to && from < marks.len() && marks[from] && #[trigger] p.repeats(
                    text@,
                    from,
                    to,
                );
            lemma_closed_holds_rows(*p, text@, out@, from, to);
        }
    }
    out
}

impl Pattern {
    /// Tests whether the pattern accepts `text`.
    pub fn is_match(&self, text: &str) -> (accepted: bool)
        ensures
            accepted == self.accepts(text@),
    {
        let letters = chars_of(text);
        let start = only_first(letters.len());
        let ends = advance(self, &letters, &start);
        let accepted = ends[letters.len()];
        proof {
            let last = letters.len() as int;
            if accepted {
                let from = choose|from: int|
                    0 <= from <= last && from < start.len() && start[from] && #[trigger] self.spans(
                        text@,
                        from,
                        last,
                    );
                assert(from == 0);
            }
            if self.accepts(text@) {
                assert(leads_to(*self, text@, start@, last));
            }
        }
        accepted
    }
}

} // verus!
