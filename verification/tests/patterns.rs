use s3_endpoint::charset::CharSet;
use s3_endpoint::pattern::Pattern;

fn accepts(pattern: &str, text: &str) -> bool {
    match Pattern::compile(pattern) {
        Some(compiled) => compiled.is_match(text),
        None => panic!("{} does not compile", pattern),
    }
}

fn just(c: char) -> Pattern {
    Pattern::Chars(CharSet::Just(c))
}

#[test]
fn compiles_to_the_expected_tree() {
    assert_eq!(Pattern::compile(""), Some(Pattern::Empty));
    assert_eq!(Pattern::compile("a"), Some(just('a')));
    assert_eq!(
        Pattern::compile("ab"),
        Some(Pattern::Then(Box::new(just('a')), Box::new(just('b'))))
    );
    assert_eq!(
        Pattern::compile("a|b"),
        Some(Pattern::Either(Box::new(just('a')), Box::new(just('b'))))
    );
    assert_eq!(Pattern::compile("a*"), Some(Pattern::Many(Box::new(just('a')))));
    assert_eq!(Pattern::compile("a+"), Some(Pattern::Several(Box::new(just('a')))));
    assert_eq!(Pattern::compile("a?"), Some(Pattern::Maybe(Box::new(just('a')))));
    assert_eq!(Pattern::compile("(a)"), Some(just('a')));
    assert_eq!(
        Pattern::compile("^\\d$"),
        Some(Pattern::Then(
            Box::new(Pattern::Start),
            Box::new(Pattern::Then(
                Box::new(Pattern::Chars(CharSet::Digit)),
                Box::new(Pattern::End)
            ))
        ))
    );
    assert_eq!(
        Pattern::compile("[a-c_]"),
        Some(Pattern::Chars(CharSet::Union(
            Box::new(CharSet::Span('a', 'c')),
            Box::new(CharSet::Just('_'))
        )))
    );
    assert_eq!(
        Pattern::compile("[^\\s]"),
        Some(Pattern::Chars(CharSet::Outside(Box::new(CharSet::Blank))))
    );
    assert_eq!(
        Pattern::compile("\\W"),
        Some(Pattern::Chars(CharSet::Outside(Box::new(CharSet::Word))))
    );
    assert_eq!(Pattern::compile("\\-"), Some(just('-')));
    assert_eq!(Pattern::compile("."), Some(Pattern::Chars(CharSet::Any)));
}

#[test]
fn refuses_what_is_not_a_pattern() {
    for source in [
        "(", ")", "a)", "(a", "((a)", "*", "+a", "?", "a**", "a+?", "a|*", "a{2}", "{", "}", "a}",
        "\\", "a\\", "\\q", "\\n", "\\1", "[", "]", "[]", "[a", "[^]", "[z-a]", "[a-]", "[-a]",
        "[a-\\d]", "[\\d-a]", "[[a]]", "[a^]", "[[:digit:]]", "\\\u{e9}",
    ] {
        assert_eq!(Pattern::compile(source), None, "{} compiled", source);
    }
}

#[test]
fn accepts_whole_text_only() {
    assert!(accepts("us", "us"));
    assert!(!accepts("us", "xus"));
    assert!(!accepts("us", "usx"));
    assert!(!accepts("us", "u"));
    assert!(!accepts("us", ""));
    assert!(accepts("", ""));
    assert!(!accepts("", "a"));
    assert!(accepts("^us$", "us"));
    assert!(!accepts("^us$", "xus"));
}

#[test]
fn anchors_hold_only_at_the_ends() {
    assert!(accepts("^", ""));
    assert!(accepts("$", ""));
    assert!(accepts("^$", ""));
    assert!(accepts("^^a$$", "a"));
    assert!(!accepts("a^b", "ab"));
    assert!(!accepts("a$b", "ab"));
    assert!(accepts("a(^)*b", "ab"));
    assert!(accepts("(^a|b)+", "ab"));
    assert!(!accepts("(^a|b)+", "ba"));
}

#[test]
fn repetition_counts() {
    assert!(accepts("a*", ""));
    assert!(accepts("a*", "aaaa"));
    assert!(!accepts("a*", "aab"));
    assert!(!accepts("a+", ""));
    assert!(accepts("a+", "a"));
    assert!(accepts("a+", "aaa"));
    assert!(accepts("a?", ""));
    assert!(accepts("a?", "a"));
    assert!(!accepts("a?", "aa"));
    assert!(accepts("(ab)*", "ababab"));
    assert!(!accepts("(ab)*", "ababa"));
    assert!(accepts("(a|b)*c", "abbac"));
    assert!(accepts("(a*)*", "aaa"));
    assert!(accepts("(a*)+", ""));
    assert!(accepts("(a?)*b", "aab"));
    assert!(accepts("(a|ab)(c|bcd)(d*)", "abcd"));
    assert!(accepts("a*a*a*a*a*b", "aaaaaaaaaaaaaaaaaaaaaaaaaaaaaaab"));
    assert!(!accepts("a*a*a*a*a*b", "aaaaaaaaaaaaaaaaaaaaaaaaaaaaaaaa"));
}

#[test]
fn alternatives_and_groups() {
    assert!(accepts("us|eu", "us"));
    assert!(accepts("us|eu", "eu"));
    assert!(!accepts("us|eu", "useu"));
    assert!(accepts("a|", ""));
    assert!(accepts("a|", "a"));
    assert!(accepts("|a", ""));
    assert!(accepts("(|a)b", "b"));
    assert!(accepts("()", ""));
    assert!(accepts("a()b", "ab"));
    assert!(accepts("x(a|b(c|d))y", "xbdy"));
    assert!(!accepts("x(a|b(c|d))y", "xby"));
}

#[test]
fn character_sets() {
    assert!(accepts("\\d", "7"));
    assert!(!accepts("\\d", "a"));
    assert!(!accepts("\\d", "\u{663}"));
    assert!(accepts("\\D", "a"));
    assert!(!accepts("\\D", "7"));
    assert!(accepts("\\w+", "az_AZ09"));
    assert!(!accepts("\\w", "-"));
    assert!(!accepts("\\w", "\u{e9}"));
    assert!(accepts("\\W", "-"));
    assert!(accepts("\\s", " "));
    assert!(accepts("\\s", "\t"));
    assert!(accepts("\\s", "\n"));
    assert!(accepts("\\S", "x"));
    assert!(!accepts("\\S", " "));
    assert!(accepts(".", "x"));
    assert!(accepts(".", "\u{e9}"));
    assert!(!accepts(".", "\n"));
    assert!(!accepts(".", ""));
    assert!(accepts("\\.", "."));
    assert!(!accepts("\\.", "x"));
    assert!(accepts("\\\\", "\\"));
    assert!(accepts("\\{region\\}", "{region}"));
    assert!(accepts("a-b", "a-b"));
}

#[test]
fn bracketed_lists() {
    assert!(accepts("[abc]", "b"));
    assert!(!accepts("[abc]", "d"));
    assert!(accepts("[a-c]+", "abcabc"));
    assert!(!accepts("[a-c]", "d"));
    assert!(accepts("[a-a]", "a"));
    assert!(accepts("[^a-c]", "d"));
    assert!(!accepts("[^a-c]", "b"));
    assert!(accepts("[\\d\\-]+", "1-2-3"));
    assert!(accepts("[a-z0-9]+", "us2"));
    assert!(accepts("[.*+?(){}|$]+", ".*+?(){}|$"));
    assert!(accepts("[\\^\\]\\[\\\\]+", "^][\\"));
    assert!(accepts("[^\\d]", "x"));
    assert!(!accepts("[^\\d]", "1"));
}

#[test]
fn region_patterns_of_the_table() {
    let standard = "^(us|eu|ap|sa|ca|me|af)\\-\\w+\\-\\d+$";
    assert!(accepts(standard, "us-east-1"));
    assert!(accepts(standard, "eu-west-1"));
    assert!(accepts(standard, "ap-southeast-2"));
    assert!(accepts(standard, "af-south-12"));
    assert!(accepts(standard, "us-east_x9-1"));
    assert!(!accepts(standard, "us-east-1a"));
    assert!(!accepts(standard, "us-east-"));
    assert!(!accepts(standard, "us--1"));
    assert!(!accepts(standard, "xus-east-1"));
    assert!(!accepts(standard, "us-east-1 "));
    assert!(!accepts(standard, "cn-north-1"));
    assert!(!accepts(standard, "us-gov-west-1"));
    assert!(!accepts(standard, "us-iso-east-1"));
    assert!(!accepts(standard, "aws-global"));
    assert!(!accepts(standard, "xx-test-1"));
    assert!(!accepts(standard, "US-EAST-1"));
    assert!(accepts("^cn\\-\\w+\\-\\d+$", "cn-north-1"));
    assert!(!accepts("^cn\\-\\w+\\-\\d+$", "us-east-1"));
    assert!(accepts("^us\\-iso\\-\\w+\\-\\d+$", "us-iso-east-1"));
    assert!(!accepts("^us\\-iso\\-\\w+\\-\\d+$", "us-isob-east-1"));
    assert!(accepts("^us\\-isob\\-\\w+\\-\\d+$", "us-isob-east-1"));
    assert!(accepts("^us\\-gov\\-\\w+\\-\\d+$", "us-gov-west-1"));
    assert!(!accepts("^us\\-gov\\-\\w+\\-\\d+$", "fips-us-gov-west-1"));
}

#[test]
fn character_set_membership() {
    assert!(CharSet::Any.contains('a'));
    assert!(!CharSet::Any.contains('\n'));
    assert!(CharSet::Just('a').contains('a'));
    assert!(!CharSet::Just('a').contains('b'));
    assert!(CharSet::Span('a', 'c').contains('a'));
    assert!(CharSet::Span('a', 'c').contains('c'));
    assert!(!CharSet::Span('a', 'c').contains('d'));
    assert!(!CharSet::Span('c', 'a').contains('b'));
    assert!(CharSet::Digit.contains('0') && CharSet::Digit.contains('9'));
    assert!(!CharSet::Digit.contains('/') && !CharSet::Digit.contains(':'));
    assert!(CharSet::Word.contains('_') && CharSet::Word.contains('Z'));
    assert!(!CharSet::Word.contains('@') && !CharSet::Word.contains('['));
    assert!(!CharSet::Word.contains('`') && !CharSet::Word.contains('{'));
    assert!(CharSet::Blank.contains('\r') && CharSet::Blank.contains('\x0C'));
    assert!(CharSet::Blank.contains('\x0B') && !CharSet::Blank.contains('x'));
    let both = CharSet::Union(Box::new(CharSet::Digit), Box::new(CharSet::Just('-')));
    assert!(both.contains('5') && both.contains('-') && !both.contains('a'));
    let neither = CharSet::Outside(Box::new(both));
    assert!(!neither.contains('5') && !neither.contains('-') && neither.contains('a'));
}
