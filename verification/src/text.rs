//! Helpers on strings, seen as sequences of characters.

use vstd::prelude::*;

verus! {

/// The characters of `s`, in order.
pub fn chars_of(s: &str) -> (out: Vec<char>)
    ensures
        out@ == s@,
{
    let mut out: Vec<char> = Vec::new();
    for c in it: s.chars()
        invariant
            out@ == it.seq().take(it.index() as int),
            it.seq() == s@,
    {
        out.push(c);
    }
    out
}

/// The mark in an address template that stands for the region: `{region}`.
pub open spec fn placeholder() -> Seq<char> {
    seq!['{', 'r', 'e', 'g', 'i', 'o', 'n', '}']
}

/// Whether the placeholder stands in `template` at position `at`.
pub open spec fn placeholder_at(template: Seq<char>, at: int) -> bool {
    0 <= at && at + 8 <= template.len() && template.subrange(at, at + 8) == placeholder()
}

/// `template` with `region` in the place of each placeholder, read from
/// left to right.
pub open spec fn substituted(template: Seq<char>, region: Seq<char>) -> Seq<char>
    decreases template.len(),
{
    if template.len() == 0 {
        template
    } else if placeholder_at(template, 0) {
        region + substituted(template.skip(8), region)
    } else {
        template.take(1) + substituted(template.skip(1), region)
    }
}

/// Tests whether the placeholder stands in `letters` at position `at`.
fn at_placeholder(letters: &Vec<char>, at: usize) -> (found: bool)
    requires
        at <= letters.len(),
    ensures
        found == placeholder_at(letters@, at as int),
{
    if letters.len() - at < 8 {
        return false;
    }
    let found = letters[at] == '{' && letters[at + 1] == 'r' && letters[at + 2] == 'e' && letters[at
        + 3] == 'g' && letters[at + 4] == 'i' && letters[at + 5] == 'o' && letters[at + 6] == 'n'
        && letters[at + 7] == '}';
    proof {
        let part = letters@.subrange(at as int, at + 8);
        if found {
            assert(part =~= placeholder());
        } else {
            assert(part[0] == letters[at as int]);
            assert(part[1] == letters[at + 1]);
            assert(part[2] == letters[at + 2]);
            assert(part[3] == letters[at + 3]);
            assert(part[4] == letters[at + 4]);
            assert(part[5] == letters[at + 5]);
            assert(part[6] == letters[at + 6]);
            assert(part[7] == letters[at + 7]);
        }
    }
    found
}

/// Writes `region` in the place of each placeholder of `template`.
pub fn substitute(template: &str, region: &str) -> (out: String)
    ensures
        out@ == substituted(template@, region@),
{
    let letters = chars_of(template);
    let mut out = String::new();
    let mut copied: usize = 0;
    let mut at: usize = 0;
    proof {
        assert(template@.skip(0) =~= template@);
        assert(out@ + template@.subrange(0, 0) + substituted(template@, region@) =~= substituted(
            template@,
            region@,
        ));
    }
    while at < letters.len()
        invariant
            letters@ == template@,
            copied <= at <= letters.len(),
            substituted(template@, region@) == out@ + template@.subrange(copied as int, at as int)
                + substituted(template@.skip(at as int), region@),
        decreases letters.len() - at,
    {
        let ghost rest = template@.skip(at as int);
        if at_placeholder(&letters, at) {
            out.append(template.substring_char(copied, at));
            out.append(region);
            proof {
                assert(rest.subrange(0, 8) =~= template@.subrange(at as int, at + 8));
                assert(rest.skip(8) =~= template@.skip(at + 8));
                assert(template@.subrange(at + 8, at + 8) =~= Seq::<char>::empty());
                assert(out@ + template@.subrange(at + 8, at + 8) =~= out@);
            }
            at += 8;
            copied = at;
        } else {
            proof {
                if rest.len() >= 8 {
                    assert(rest.subrange(0, 8) =~= template@.subrange(at as int, at + 8));
                }
                assert(rest.skip(1) =~= template@.skip(at + 1));
                assert(template@.subrange(copied as int, at as int) + rest.take(1)
                    =~= template@.subrange(copied as int, at + 1));
                assert(out@ + template@.subrange(copied as int, at as int) + (rest.take(1)
                    + substituted(rest.skip(1), region@)) =~= out@ + (template@.subrange(
                    copied as int,
                    at as int,
                ) + rest.take(1)) + substituted(rest.skip(1), region@));
            }
            at += 1;
        }
    }
    out.append(template.substring_char(copied, at));
    proof {
        assert(template@.skip(at as int) =~= Seq::<char>::empty());
        assert(out@ =~= substituted(template@, region@));
    }
    out
}

/// The texts that `names` holds, in order.
pub open spec fn texts(names: Seq<String>) -> Seq<Seq<char>> {
    names.map_values(|name: String| name@)
}

/// Tests whether no text occurs twice among `names`.
pub fn all_distinct(names: &Vec<String>) -> (distinct: bool)
    ensures
        distinct == texts(names@).no_duplicates(),
{
    let ghost all = texts(names@);
    let mut upto: usize = 0;
    while upto < names.len()
        invariant
            upto <= names.len(),
            all == texts(names@),
            forall|i: int, j: int| 0 <= i < j < upto ==> all[i] != all[j],
        decreases names.len() - upto,
    {
        let mut before: usize = 0;
        while before < upto
            invariant
                before <= upto < names.len(),
                all == texts(names@),
                forall|i: int| 0 <= i < before ==> all[i] != all[upto as int],
            decreases upto - before,
        {
            if names[before] == names[upto] {
                assert(all[before as int] == all[upto as int]);
                return false;
            }
            before += 1;
        }
        upto += 1;
    }
    true
}

/// What tells names apart in a proof: the length of a name, and its
/// characters at the places 0, 3 and 7 and at its end. Two names with
/// different marks are different names.
pub open spec fn marks(name: Seq<char>) -> (nat, char, char, char, char) {
    (name.len(), letter(name, 0), letter(name, 3), letter(name, 7), letter(name, name.len() - 1))
}

/// The character of `name` at `at`, and a blank where it has none.
pub open spec fn letter(name: Seq<char>, at: int) -> char {
    if 0 <= at < name.len() {
        name[at]
    } else {
        ' '
    }
}

} // verus!
