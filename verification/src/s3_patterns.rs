//! The region patterns of the storage service's table: their written forms,
//! what they compile to, and which regions they accept.

use vstd::prelude::*;
use crate::charset::CharSet;
use crate::parse::{parse_alternative, parse_alternatives, parse_atom, parse_pattern, parse_piece};
use crate::pattern::{
    all_in, between, lemma_char_then, lemma_several_of_set, lemma_start_then, Pattern,
};

verus! {

/// The written pattern of the regions of the partition `aws`.
pub open spec fn standard_pattern() -> Seq<char> {
    "^(us|eu|ap|sa|ca|me|af)\\-\\w+\\-\\d+$"@
}

/// The written pattern of the regions of the partition `aws-cn`.
pub open spec fn china_pattern() -> Seq<char> {
    "^cn\\-\\w+\\-\\d+$"@
}

/// The written pattern of the regions of the partition `aws-iso`.
pub open spec fn iso_pattern() -> Seq<char> {
    "^us\\-iso\\-\\w+\\-\\d+$"@
}

/// The written pattern of the regions of the partition `aws-iso-b`.
pub open spec fn iso_b_pattern() -> Seq<char> {
    "^us\\-isob\\-\\w+\\-\\d+$"@
}

/// The written pattern of the regions of the partition `aws-us-gov`.
pub open spec fn us_gov_pattern() -> Seq<char> {
    "^us\\-gov\\-\\w+\\-\\d+$"@
}

/// The pattern that covers the character `c`.
pub open spec fn one(c: char) -> Pattern {
    Pattern::Chars(CharSet::Just(c))
}

/// The pattern that covers what `first` covers, followed by what `second`
/// covers.
pub open spec fn then(first: Pattern, second: Pattern) -> Pattern {
    Pattern::Then(Box::new(first), Box::new(second))
}

/// The pattern that covers what either of the two covers.
pub open spec fn either(left: Pattern, right: Pattern) -> Pattern {
    Pattern::Either(Box::new(left), Box::new(right))
}

/// The pattern that covers one or more characters of `set`.
pub open spec fn several(set: CharSet) -> Pattern {
    Pattern::Several(Box::new(Pattern::Chars(set)))
}

/// The written end that the region patterns share: a hyphen, word
/// characters, a hyphen, digits, the end of the text.
pub open spec fn area_and_number() -> Seq<char> {
    seq!['\\', '-', '\\', 'w', '+', '\\', '-', '\\', 'd', '+', '$']
}

/// What the shared end compiles to.
pub open spec fn area_and_number_compiled() -> Pattern {
    then(
        one('-'),
        then(several(CharSet::Word), then(one('-'), then(several(CharSet::Digit), Pattern::End))),
    )
}

/// The two-letter codes of the standard partition's geographies.
pub open spec fn geographies() -> Pattern {
    either(
        then(one('u'), one('s')),
        either(
            then(one('e'), one('u')),
            either(
                then(one('a'), one('p')),
                either(
                    then(one('s'), one('a')),
                    either(
                        then(one('c'), one('a')),
                        either(then(one('m'), one('e')), then(one('a'), one('f'))),
                    ),
                ),
            ),
        ),
    )
}

/// What the pattern of the standard partition compiles to.
pub open spec fn standard_compiled() -> Pattern {
    then(Pattern::Start, then(geographies(), area_and_number_compiled()))
}

/// What the pattern of the partition `aws-cn` compiles to.
pub open spec fn china_compiled() -> Pattern {
    then(Pattern::Start, then(one('c'), then(one('n'), area_and_number_compiled())))
}

/// What comes after `^us\-` in the patterns of three partitions: the
/// letters of `family`, then the shared end.
pub open spec fn us_family(family: Pattern) -> Pattern {
    then(Pattern::Start, then(one('u'), then(one('s'), then(one('-'), family))))
}

/// What the pattern of the partition `aws-iso` compiles to.
pub open spec fn iso_compiled() -> Pattern {
    us_family(then(one('i'), then(one('s'), then(one('o'), area_and_number_compiled()))))
}

/// What the pattern of the partition `aws-iso-b` compiles to.
pub open spec fn iso_b_compiled() -> Pattern {
    us_family(
        then(one('i'), then(one('s'), then(one('o'), then(one('b'), area_and_number_compiled())))),
    )
}

/// What the pattern of the partition `aws-us-gov` compiles to.
pub open spec fn us_gov_compiled() -> Pattern {
    us_family(then(one('g'), then(one('o'), then(one('v'), area_and_number_compiled()))))
}

/// Where a written pattern holds the shared end from `at` to its own end,
/// what is read from `at` is what the shared end compiles to.
proof fn lemma_reads_area_and_number(s: Seq<char>, at: int)
    requires
        0 <= at,
        s.len() == at + 11,
        s.subrange(at, at + 11) == area_and_number(),
    ensures
        parse_alternative(s, at) == Some((area_and_number_compiled(), at + 11)),
{
    reveal_with_fuel(parse_atom, 4);
    reveal_with_fuel(parse_piece, 4);
    reveal_with_fuel(parse_alternative, 4);
    reveal_with_fuel(parse_alternatives, 4);
    let tail = s.subrange(at, at + 11);
    assert forall|i: int| 0 <= i < 11 implies s[at + i] == area_and_number()[i] by {
        assert(tail[i] == s[at + i]);
    }
    assert(s[at + 10] == '$');
    assert(s[at + 9] == '+');
    assert(s[at + 8] == 'd');
    assert(s[at + 7] == '\\');
    assert(s[at + 6] == '-');
    assert(s[at + 5] == '\\');
    assert(s[at + 4] == '+');
    assert(s[at + 3] == 'w');
    assert(s[at + 2] == '\\');
    assert(s[at + 1] == '-');
    assert(s[at] == '\\');
    let end = at + 11;
    let digits = then(several(CharSet::Digit), Pattern::End);
    let hyphen_digits = then(one('-'), digits);
    let area = then(several(CharSet::Word), hyphen_digits);
    assert(parse_alternative(s, at + 11) == Some((Pattern::Empty, end)));
    assert(parse_alternative(s, at + 10) == Some((Pattern::End, end)));
    assert(parse_alternative(s, at + 7) == Some((digits, end)));
    assert(parse_alternative(s, at + 5) == Some((hyphen_digits, end)));
    assert(parse_alternative(s, at + 2) == Some((area, end)));
}

/// The pattern of the standard partition compiles, and to this.
pub proof fn lemma_standard_pattern()
    ensures
        parse_pattern(standard_pattern()) == Some(standard_compiled()),
{
    reveal_strlit("^(us|eu|ap|sa|ca|me|af)\\-\\w+\\-\\d+$");
    let s = standard_pattern();
    assert(s.len() == 34);
    assert(s.subrange(23, 34) =~= area_and_number());
    lemma_reads_area_and_number(s, 23);
    reveal_with_fuel(parse_atom, 4);
    reveal_with_fuel(parse_piece, 4);
    reveal_with_fuel(parse_alternative, 4);
    reveal_with_fuel(parse_alternatives, 4);
    assert(parse_alternative(s, 22) == Some((Pattern::Empty, 22int)));
    assert(parse_alternative(s, 20) == Some((then(one('a'), one('f')), 22int)));
    let from_af = then(one('a'), one('f'));
    assert(parse_alternatives(s, 20) == Some((from_af, 22int)));
    assert(parse_alternative(s, 17) == Some((then(one('m'), one('e')), 19int)));
    let from_me = either(then(one('m'), one('e')), from_af);
    assert(parse_alternatives(s, 17) == Some((from_me, 22int)));
    assert(parse_alternative(s, 14) == Some((then(one('c'), one('a')), 16int)));
    let from_ca = either(then(one('c'), one('a')), from_me);
    assert(parse_alternatives(s, 14) == Some((from_ca, 22int)));
    assert(parse_alternative(s, 11) == Some((then(one('s'), one('a')), 13int)));
    let from_sa = either(then(one('s'), one('a')), from_ca);
    assert(parse_alternatives(s, 11) == Some((from_sa, 22int)));
    assert(parse_alternative(s, 8) == Some((then(one('a'), one('p')), 10int)));
    let from_ap = either(then(one('a'), one('p')), from_sa);
    assert(parse_alternatives(s, 8) == Some((from_ap, 22int)));
    assert(parse_alternative(s, 5) == Some((then(one('e'), one('u')), 7int)));
    let from_eu = either(then(one('e'), one('u')), from_ap);
    assert(parse_alternatives(s, 5) == Some((from_eu, 22int)));
    assert(parse_alternative(s, 2) == Some((then(one('u'), one('s')), 4int)));
    let from_us = either(then(one('u'), one('s')), from_eu);
    assert(parse_alternatives(s, 2) == Some((from_us, 22int)));
    assert(from_us == geographies());
    assert(parse_atom(s, 1) == Some((geographies(), 23int)));
    assert(parse_alternative(s, 1) == Some(
        (then(geographies(), area_and_number_compiled()), 34int),
    ));
    assert(parse_alternative(s, 0) == Some((standard_compiled(), 34int)));
    assert(parse_alternatives(s, 0) == Some((standard_compiled(), 34int)));
}

/// The pattern of the partition `aws-cn` compiles, and to this.
pub proof fn lemma_china_pattern()
    ensures
        parse_pattern(china_pattern()) == Some(china_compiled()),
{
    reveal_strlit("^cn\\-\\w+\\-\\d+$");
    let s = china_pattern();
    assert(s.len() == 14);
    assert(s.subrange(3, 14) =~= area_and_number());
    lemma_reads_area_and_number(s, 3);
    reveal_with_fuel(parse_atom, 4);
    reveal_with_fuel(parse_piece, 4);
    reveal_with_fuel(parse_alternative, 4);
    reveal_with_fuel(parse_alternatives, 4);
    let rest2 = area_and_number_compiled();
    let rest1 = then(one('n'), rest2);
    assert(parse_alternative(s, 2) == Some((rest1, 14int)));
    let rest0 = then(one('c'), rest1);
    assert(parse_alternative(s, 1) == Some((rest0, 14int)));
    assert(then(Pattern::Start, rest0) == china_compiled());
    assert(parse_alternative(s, 0) == Some((china_compiled(), 14int)));
    assert(parse_alternatives(s, 0) == Some((china_compiled(), 14int)));
}

/// The pattern of the partition `aws-iso` compiles, and to this.
pub proof fn lemma_iso_pattern()
    ensures
        parse_pattern(iso_pattern()) == Some(iso_compiled()),
{
    reveal_strlit("^us\\-iso\\-\\w+\\-\\d+$");
    let s = iso_pattern();
    assert(s.len() == 19);
    assert(s.subrange(8, 19) =~= area_and_number());
    lemma_reads_area_and_number(s, 8);
    reveal_with_fuel(parse_atom, 4);
    reveal_with_fuel(parse_piece, 4);
    reveal_with_fuel(parse_alternative, 4);
    reveal_with_fuel(parse_alternatives, 4);
    let rest6 = area_and_number_compiled();
    let rest5 = then(one('o'), rest6);
    assert(parse_alternative(s, 7) == Some((rest5, 19int)));
    let rest4 = then(one('s'), rest5);
    assert(parse_alternative(s, 6) == Some((rest4, 19int)));
    let rest3 = then(one('i'), rest4);
    assert(parse_alternative(s, 5) == Some((rest3, 19int)));
    let rest2 = then(one('-'), rest3);
    assert(parse_alternative(s, 3) == Some((rest2, 19int)));
    let rest1 = then(one('s'), rest2);
    assert(parse_alternative(s, 2) == Some((rest1, 19int)));
    let rest0 = then(one('u'), rest1);
    assert(parse_alternative(s, 1) == Some((rest0, 19int)));
    assert(then(Pattern::Start, rest0) == iso_compiled());
    assert(parse_alternative(s, 0) == Some((iso_compiled(), 19int)));
    assert(parse_alternatives(s, 0) == Some((iso_compiled(), 19int)));
}

/// The pattern of the partition `aws-iso-b` compiles, and to this.
pub proof fn lemma_iso_b_pattern()
    ensures
        parse_pattern(iso_b_pattern()) == Some(iso_b_compiled()),
{
    reveal_strlit("^us\\-isob\\-\\w+\\-\\d+$");
    let s = iso_b_pattern();
    assert(s.len() == 20);
    assert(s.subrange(9, 20) =~= area_and_number());
    lemma_reads_area_and_number(s, 9);
    reveal_with_fuel(parse_atom, 4);
    reveal_with_fuel(parse_piece, 4);
    reveal_with_fuel(parse_alternative, 4);
    reveal_with_fuel(parse_alternatives, 4);
    let rest7 = area_and_number_compiled();
    let rest6 = then(one('b'), rest7);
    assert(parse_alternative(s, 8) == Some((rest6, 20int)));
    let rest5 = then(one('o'), rest6);
    assert(parse_alternative(s, 7) == Some((rest5, 20int)));
    let rest4 = then(one('s'), rest5);
    assert(parse_alternative(s, 6) == Some((rest4, 20int)));
    let rest3 = then(one('i'), rest4);
    assert(parse_alternative(s, 5) == Some((rest3, 20int)));
    let rest2 = then(one('-'), rest3);
    assert(parse_alternative(s, 3) == Some((rest2, 20int)));
    let rest1 = then(one('s'), rest2);
    assert(parse_alternative(s, 2) == Some((rest1, 20int)));
    let rest0 = then(one('u'), rest1);
    assert(parse_alternative(s, 1) == Some((rest0, 20int)));
    assert(then(Pattern::Start, rest0) == iso_b_compiled());
    assert(parse_alternative(s, 0) == Some((iso_b_compiled(), 20int)));
    assert(parse_alternatives(s, 0) == Some((iso_b_compiled(), 20int)));
}

/// The pattern of the partition `aws-us-gov` compiles, and to this.
pub proof fn lemma_us_gov_pattern()
    ensures
        parse_pattern(us_gov_pattern()) == Some(us_gov_compiled()),
{
    reveal_strlit("^us\\-gov\\-\\w+\\-\\d+$");
    let s = us_gov_pattern();
    assert(s.len() == 19);
    assert(s.subrange(8, 19) =~= area_and_number());
    lemma_reads_area_and_number(s, 8);
    reveal_with_fuel(parse_atom, 4);
    reveal_with_fuel(parse_piece, 4);
    reveal_with_fuel(parse_alternative, 4);
    reveal_with_fuel(parse_alternatives, 4);
    let rest6 = area_and_number_compiled();
    let rest5 = then(one('v'), rest6);
    assert(parse_alternative(s, 7) == Some((rest5, 19int)));
    let rest4 = then(one('o'), rest5);
    assert(parse_alternative(s, 6) == Some((rest4, 19int)));
    let rest3 = then(one('g'), rest4);
    assert(parse_alternative(s, 5) == Some((rest3, 19int)));
    let rest2 = then(one('-'), rest3);
    assert(parse_alternative(s, 3) == Some((rest2, 19int)));
    let rest1 = then(one('s'), rest2);
    assert(parse_alternative(s, 2) == Some((rest1, 19int)));
    let rest0 = then(one('u'), rest1);
    assert(parse_alternative(s, 1) == Some((rest0, 19int)));
    assert(then(Pattern::Start, rest0) == us_gov_compiled());
    assert(parse_alternative(s, 0) == Some((us_gov_compiled(), 19int)));
    assert(parse_alternatives(s, 0) == Some((us_gov_compiled(), 19int)));
}

/// Whether `text` holds, from `from` to its end: a hyphen, an area of one
/// or more word characters, a hyphen at `hyphen`, and a number of one or
/// more digits.
pub open spec fn area_and_number_at(text: Seq<char>, from: int, hyphen: int) -> bool {
    &&& 0 <= from
    &&& from + 1 < hyphen
    &&& hyphen + 1 < text.len()
    &&& text[from] == '-'
    &&& all_in(CharSet::Word, text, from + 1, hyphen)
    &&& text[hyphen] == '-'
    &&& all_in(CharSet::Digit, text, hyphen + 1, text.len() as int)
}

/// Whether `text` names a region of `family`: whether it is `family`, a
/// hyphen, an area, a hyphen and a number.
pub open spec fn region_of(text: Seq<char>, family: Seq<char>) -> bool {
    &&& family.is_prefix_of(text)
    &&& exists|hyphen: int| area_and_number_at(text, family.len() as int, hyphen)
}

/// Whether `text` names a region of one of the standard partition's
/// geographies.
pub open spec fn standard_region(text: Seq<char>) -> bool {
    region_of(text, "us"@) || region_of(text, "eu"@) || region_of(text, "ap"@) || region_of(
        text,
        "sa"@,
    ) || region_of(text, "ca"@) || region_of(text, "me"@) || region_of(text, "af"@)
}

/// What the shared end compiles to covers `text` from `from` to its end
/// where the text holds a hyphen, an area, a hyphen and a number there, and
/// nowhere else.
pub proof fn lemma_area_and_number(text: Seq<char>, from: int)
    ensures
        area_and_number_compiled().spans(text, from, text.len() as int) <==> exists|hyphen: int|
            area_and_number_at(text, from, hyphen),
{
    let end = text.len() as int;
    let number = then(several(CharSet::Digit), Pattern::End);
    let hyphen_number = then(one('-'), number);
    let area = then(several(CharSet::Word), hyphen_number);
    reveal_with_fuel(Pattern::spans, 2);
    lemma_char_then('-', area, text, from, end);
    if area_and_number_compiled().spans(text, from, end) {
        let hyphen = choose|hyphen: int|
            #[trigger] between(from + 1, hyphen, end) && several(CharSet::Word).spans(
                text,
                from + 1,
                hyphen,
            ) && hyphen_number.spans(text, hyphen, end);
        lemma_several_of_set(CharSet::Word, text, from + 1, hyphen);
        lemma_char_then('-', number, text, hyphen, end);
        let last = choose|last: int|
            #[trigger] between(hyphen + 1, last, end) && several(CharSet::Digit).spans(
                text,
                hyphen + 1,
                last,
            ) && Pattern::End.spans(text, last, end);
        lemma_several_of_set(CharSet::Digit, text, hyphen + 1, last);
        assert(area_and_number_at(text, from, hyphen));
    }
    if exists|hyphen: int| area_and_number_at(text, from, hyphen) {
        let hyphen = choose|hyphen: int| area_and_number_at(text, from, hyphen);
        lemma_several_of_set(CharSet::Digit, text, hyphen + 1, end);
        assert(Pattern::End.spans(text, end, end));
        assert(between(hyphen + 1, end, end) && several(CharSet::Digit).spans(
            text,
            hyphen + 1,
            end,
        ) && Pattern::End.spans(text, end, end));
        assert(number.spans(text, hyphen + 1, end));
        lemma_char_then('-', number, text, hyphen, end);
        lemma_several_of_set(CharSet::Word, text, from + 1, hyphen);
        assert(between(from + 1, hyphen, end) && several(CharSet::Word).spans(
            text,
            from + 1,
            hyphen,
        ) && hyphen_number.spans(text, hyphen, end));
        assert(area.spans(text, from + 1, end));
    }
}

/// The pattern of the partition `aws-cn` accepts the regions of the family
/// `cn`, and nothing else.
pub proof fn lemma_china_regions(text: Seq<char>)
    ensures
        china_compiled().accepts(text) <==> region_of(text, "cn"@),
{
    let end = text.len() as int;
    let tail = area_and_number_compiled();
    reveal_strlit("cn");
    lemma_start_then(then(one('c'), then(one('n'), tail)), text, 0, end);
    lemma_char_then('c', then(one('n'), tail), text, 0, end);
    lemma_char_then('n', tail, text, 1, end);
    lemma_area_and_number(text, 2);
    if china_compiled().accepts(text) {
        assert("cn"@ =~= text.subrange(0, 2));
    }
    if region_of(text, "cn"@) {
        assert(text.subrange(0, 2)[0] == text[0]);
        assert(text.subrange(0, 2)[1] == text[1]);
    }
}

/// The pattern of the partition `aws-iso` accepts the regions of the family
/// `us-iso`, and nothing else.
pub proof fn lemma_iso_regions(text: Seq<char>)
    ensures
        iso_compiled().accepts(text) <==> region_of(text, "us-iso"@),
{
    let end = text.len() as int;
    reveal_strlit("us-iso");
    let rest6 = area_and_number_compiled();
    let rest5 = then(one('o'), rest6);
    lemma_char_then('o', rest6, text, 5, end);
    let rest4 = then(one('s'), rest5);
    lemma_char_then('s', rest5, text, 4, end);
    let rest3 = then(one('i'), rest4);
    lemma_char_then('i', rest4, text, 3, end);
    let rest2 = then(one('-'), rest3);
    lemma_char_then('-', rest3, text, 2, end);
    let rest1 = then(one('s'), rest2);
    lemma_char_then('s', rest2, text, 1, end);
    let rest0 = then(one('u'), rest1);
    lemma_char_then('u', rest1, text, 0, end);
    lemma_start_then(rest0, text, 0, end);
    lemma_area_and_number(text, 6);
    assert(iso_compiled() == then(Pattern::Start, rest0));
    if iso_compiled().accepts(text) {
        assert("us-iso"@ =~= text.subrange(0, 6));
    }
    if region_of(text, "us-iso"@) {
        assert(text.subrange(0, 6)[0] == text[0]);
        assert(text.subrange(0, 6)[1] == text[1]);
        assert(text.subrange(0, 6)[2] == text[2]);
        assert(text.subrange(0, 6)[3] == text[3]);
        assert(text.subrange(0, 6)[4] == text[4]);
        assert(text.subrange(0, 6)[5] == text[5]);
    }
}

/// The pattern of the partition `aws-iso-b` accepts the regions of the family
/// `us-isob`, and nothing else.
pub proof fn lemma_iso_b_regions(text: Seq<char>)
    ensures
        iso_b_compiled().accepts(text) <==> region_of(text, "us-isob"@),
{
    let end = text.len() as int;
    reveal_strlit("us-isob");
    let rest7 = area_and_number_compiled();
    let rest6 = then(one('b'), rest7);
    lemma_char_then('b', rest7, text, 6, end);
    let rest5 = then(one('o'), rest6);
    lemma_char_then('o', rest6, text, 5, end);
    let rest4 = then(one('s'), rest5);
    lemma_char_then('s', rest5, text, 4, end);
    let rest3 = then(one('i'), rest4);
    lemma_char_then('i', rest4, text, 3, end);
    let rest2 = then(one('-'), rest3);
    lemma_char_then('-', rest3, text, 2, end);
    let rest1 = then(one('s'), rest2);
    lemma_char_then('s', rest2, text, 1, end);
    let rest0 = then(one('u'), rest1);
    lemma_char_then('u', rest1, text, 0, end);
    lemma_start_then(rest0, text, 0, end);
    lemma_area_and_number(text, 7);
    assert(iso_b_compiled() == then(Pattern::Start, rest0));
    if iso_b_compiled().accepts(text) {
        assert("us-isob"@ =~= text.subrange(0, 7));
    }
    if region_of(text, "us-isob"@) {
        assert(text.subrange(0, 7)[0] == text[0]);
        assert(text.subrange(0, 7)[1] == text[1]);
        assert(text.subrange(0, 7)[2] == text[2]);
        assert(text.subrange(0, 7)[3] == text[3]);
        assert(text.subrange(0, 7)[4] == text[4]);
        assert(text.subrange(0, 7)[5] == text[5]);
        assert(text.subrange(0, 7)[6] == text[6]);
    }
}

/// The pattern of the partition `aws-us-gov` accepts the regions of the family
/// `us-gov`, and nothing else.
pub proof fn lemma_us_gov_regions(text: Seq<char>)
    ensures
        us_gov_compiled().accepts(text) <==> region_of(text, "us-gov"@),
{
    let end = text.len() as int;
    reveal_strlit("us-gov");
    let rest6 = area_and_number_compiled();
    let rest5 = then(one('v'), rest6);
    lemma_char_then('v', rest6, text, 5, end);
    let rest4 = then(one('o'), rest5);
    lemma_char_then('o', rest5, text, 4, end);
    let rest3 = then(one('g'), rest4);
    lemma_char_then('g', rest4, text, 3, end);
    let rest2 = then(one('-'), rest3);
    lemma_char_then('-', rest3, text, 2, end);
    let rest1 = then(one('s'), rest2);
    lemma_char_then('s', rest2, text, 1, end);
    let rest0 = then(one('u'), rest1);
    lemma_char_then('u', rest1, text, 0, end);
    lemma_start_then(rest0, text, 0, end);
    lemma_area_and_number(text, 6);
    assert(us_gov_compiled() == then(Pattern::Start, rest0));
    if us_gov_compiled().accepts(text) {
        assert("us-gov"@ =~= text.subrange(0, 6));
    }
    if region_of(text, "us-gov"@) {
        assert(text.subrange(0, 6)[0] == text[0]);
        assert(text.subrange(0, 6)[1] == text[1]);
        assert(text.subrange(0, 6)[2] == text[2]);
        assert(text.subrange(0, 6)[3] == text[3]);
        assert(text.subrange(0, 6)[4] == text[4]);
        assert(text.subrange(0, 6)[5] == text[5]);
    }
}

/// Whether `first` and `second` are the letters of one of the standard
/// partition's geographies.
pub open spec fn geography(first: char, second: char) -> bool {
    ||| first == 'u' && second == 's'
    ||| first == 'e' && second == 'u'
    ||| first == 'a' && second == 'p'
    ||| first == 's' && second == 'a'
    ||| first == 'c' && second == 'a'
    ||| first == 'm' && second == 'e'
    ||| first == 'a' && second == 'f'
}

/// The codes of the geographies cover two letters that are such a code, and
/// nothing else.
pub proof fn lemma_geographies(text: Seq<char>, from: int, to: int)
    ensures
        geographies().spans(text, from, to) <==> 0 <= from && to == from + 2 && to <= text.len()
            && geography(text[from], text[from + 1]),
{
    reveal_with_fuel(Pattern::spans, 9);
    lemma_char_then('u', one('s'), text, from, to);
    lemma_char_then('e', one('u'), text, from, to);
    lemma_char_then('a', one('p'), text, from, to);
    lemma_char_then('s', one('a'), text, from, to);
    lemma_char_then('c', one('a'), text, from, to);
    lemma_char_then('m', one('e'), text, from, to);
    lemma_char_then('a', one('f'), text, from, to);
}

/// The pattern of the standard partition accepts the regions of its
/// geographies, and nothing else.
pub proof fn lemma_standard_regions(text: Seq<char>)
    ensures
        standard_compiled().accepts(text) <==> standard_region(text),
{
    let end = text.len() as int;
    let tail = area_and_number_compiled();
    let body = then(geographies(), tail);
    reveal_with_fuel(Pattern::spans, 2);
    reveal_strlit("us");
    reveal_strlit("eu");
    reveal_strlit("ap");
    reveal_strlit("sa");
    reveal_strlit("ca");
    reveal_strlit("me");
    reveal_strlit("af");
    lemma_start_then(body, text, 0, end);
    lemma_area_and_number(text, 2);
    lemma_geographies(text, 0, 2);
    if standard_compiled().accepts(text) {
        let mid = choose|mid: int|
            #[trigger] between(0, mid, end) && geographies().spans(text, 0, mid) && tail.spans(
                text,
                mid,
                end,
            );
        lemma_geographies(text, 0, mid);
        let code = text.subrange(0, 2);
        assert(code[0] == text[0] && code[1] == text[1]);
        if text[0] == 'u' && text[1] == 's' {
            assert("us"@ =~= code);
        }
        if text[0] == 'e' && text[1] == 'u' {
            assert("eu"@ =~= code);
        }
        if text[0] == 'a' && text[1] == 'p' {
            assert("ap"@ =~= code);
        }
        if text[0] == 's' && text[1] == 'a' {
            assert("sa"@ =~= code);
        }
        if text[0] == 'c' && text[1] == 'a' {
            assert("ca"@ =~= code);
        }
        if text[0] == 'm' && text[1] == 'e' {
            assert("me"@ =~= code);
        }
        if text[0] == 'a' && text[1] == 'f' {
            assert("af"@ =~= code);
        }
    }
    if standard_region(text) {
        let code = text.subrange(0, 2);
        assert(code[0] == text[0] && code[1] == text[1]);
        assert(geography(text[0], text[1]));
        assert(between(0, 2, end) && geographies().spans(text, 0, 2) && tail.spans(text, 2, end));
    }
}

/// A region of a family starts with the letters of the family.
pub proof fn lemma_region_letters(text: Seq<char>, family: Seq<char>, at: int)
    requires
        region_of(text, family),
        0 <= at < family.len(),
    ensures
        at < text.len(),
        text[at] == family[at],
{
    assert(text.subrange(0, family.len() as int)[at] == text[at]);
}

/// A word character is no hyphen, and neither is a digit.
pub proof fn lemma_hyphen_is_apart()
    ensures
        !CharSet::Word.holds('-'),
        !CharSet::Digit.holds('-'),
{
}

/// In a region of the family `us`, the place 6 holds no hyphen unless the
/// number starts after it: what follows a hyphen at 6 is digits to the end.
proof fn lemma_us_hyphen(text: Seq<char>)
    requires
        region_of(text, "us"@),
        text.len() > 6,
        text[6] == '-',
        text[3] != '-',
        text[4] != '-',
        text[5] != '-',
    ensures
        all_in(CharSet::Digit, text, 7, text.len() as int),
{
    reveal_strlit("us");
    let hyphen = choose|hyphen: int| area_and_number_at(text, 2, hyphen);
    lemma_hyphen_is_apart();
    if hyphen < 6 {
        assert(CharSet::Word.holds(text[3]));
        assert(text[hyphen] == '-');
    } else if hyphen > 6 {
        assert(CharSet::Word.holds(text[6]));
    }
}

/// No text names a region of two of the families that the table tells
/// apart: the standard geographies taken together, `cn`, `us-iso`,
/// `us-isob` and `us-gov`.
pub proof fn lemma_families_apart(text: Seq<char>)
    ensures
        !(standard_region(text) && region_of(text, "cn"@)),
        !(standard_region(text) && region_of(text, "us-iso"@)),
        !(standard_region(text) && region_of(text, "us-isob"@)),
        !(standard_region(text) && region_of(text, "us-gov"@)),
        !(region_of(text, "cn"@) && region_of(text, "us-iso"@)),
        !(region_of(text, "cn"@) && region_of(text, "us-isob"@)),
        !(region_of(text, "cn"@) && region_of(text, "us-gov"@)),
        !(region_of(text, "us-iso"@) && region_of(text, "us-isob"@)),
        !(region_of(text, "us-iso"@) && region_of(text, "us-gov"@)),
        !(region_of(text, "us-isob"@) && region_of(text, "us-gov"@)),
{
    reveal_strlit("us");
    reveal_strlit("eu");
    reveal_strlit("ap");
    reveal_strlit("sa");
    reveal_strlit("ca");
    reveal_strlit("me");
    reveal_strlit("af");
    reveal_strlit("cn");
    reveal_strlit("us-iso");
    reveal_strlit("us-isob");
    reveal_strlit("us-gov");
    lemma_hyphen_is_apart();
    let end = text.len() as int;
    if region_of(text, "cn"@) {
        lemma_region_letters(text, "cn"@, 0);
        lemma_region_letters(text, "cn"@, 1);
    }
    if region_of(text, "eu"@) {
        lemma_region_letters(text, "eu"@, 0);
    }
    if region_of(text, "ap"@) {
        lemma_region_letters(text, "ap"@, 0);
    }
    if region_of(text, "sa"@) {
        lemma_region_letters(text, "sa"@, 0);
    }
    if region_of(text, "ca"@) {
        lemma_region_letters(text, "ca"@, 0);
        lemma_region_letters(text, "ca"@, 1);
    }
    if region_of(text, "me"@) {
        lemma_region_letters(text, "me"@, 0);
    }
    if region_of(text, "af"@) {
        lemma_region_letters(text, "af"@, 0);
    }
    if region_of(text, "us"@) {
        lemma_region_letters(text, "us"@, 0);
    }
    if region_of(text, "us-iso"@) {
        lemma_region_letters(text, "us-iso"@, 0);
        lemma_region_letters(text, "us-iso"@, 3);
        lemma_region_letters(text, "us-iso"@, 4);
        lemma_region_letters(text, "us-iso"@, 5);
        let hyphen = choose|hyphen: int| area_and_number_at(text, 6, hyphen);
        if region_of(text, "us"@) {
            lemma_us_hyphen(text);
            assert(CharSet::Digit.holds(text[hyphen]));
        }
    }
    if region_of(text, "us-isob"@) {
        lemma_region_letters(text, "us-isob"@, 0);
        lemma_region_letters(text, "us-isob"@, 3);
        lemma_region_letters(text, "us-isob"@, 6);
        let hyphen = choose|hyphen: int| area_and_number_at(text, 7, hyphen);
        if region_of(text, "us"@) {
            let first = choose|first: int| area_and_number_at(text, 2, first);
            if first < 7 {
                assert(CharSet::Word.holds(text[3]));
                lemma_region_letters(text, "us-isob"@, 4);
                lemma_region_letters(text, "us-isob"@, 5);
                assert(text[first] == '-');
                assert(CharSet::Digit.holds(text[7]));
            } else if first > 7 {
                assert(CharSet::Word.holds(text[7]));
            } else {
                assert(CharSet::Digit.holds(text[hyphen]));
            }
        }
    }
    if region_of(text, "us-gov"@) {
        lemma_region_letters(text, "us-gov"@, 0);
        lemma_region_letters(text, "us-gov"@, 3);
        lemma_region_letters(text, "us-gov"@, 4);
        lemma_region_letters(text, "us-gov"@, 5);
        let hyphen = choose|hyphen: int| area_and_number_at(text, 6, hyphen);
        if region_of(text, "us"@) {
            lemma_us_hyphen(text);
            assert(CharSet::Digit.holds(text[hyphen]));
        }
    }
}

} // verus!
