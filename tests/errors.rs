use synfuzz::ast::Operation;
use synfuzz::{
    any, byte, char_range, choice, join_with, parse_charset, range, sep_by, sep_by1, BuildError,
    CharsetError, Entropy, GenerateError, Rules,
};

#[test]
fn construction_errors() {
    assert!(matches!(choice(vec![]), Err(BuildError::EmptyChoice)));
    assert!(matches!(range(byte(1), 3, 3), Err(BuildError::EmptyRange(3, 3))));
    assert!(matches!(range(byte(1), 4, 3), Err(BuildError::EmptyRange(4, 3))));
    assert!(matches!(
        char_range('z', 'a'),
        Err(BuildError::InvertedCharRange('z', 'a'))
    ));
}

#[test]
fn unsupported_negations() {
    let rules = Rules::new();
    let mut rng = Entropy::seeded(1);
    let unsupported = vec![
        synfuzz::combinator::seq(vec![byte(1)]),
        join_with(vec![byte(1)], byte(2)),
        range(byte(1), 0, 3).unwrap(),
        sep_by(byte(1), byte(2)),
        sep_by1(byte(1), byte(2)),
        any(),
        choice(vec![byte(1), byte(2)]).unwrap(),
        char_range('\0', '\u{10FFFF}').unwrap(),
    ];
    for g in unsupported {
        assert_eq!(g.negate(&rules, &mut rng), Err(GenerateError::NegationUnsupported));
    }
}

#[test]
fn charset_errors() {
    assert_eq!(parse_charset("abc").unwrap_err(), CharsetError::ExpectedOpenBracket('a'));
    assert_eq!(parse_charset("").unwrap_err(), CharsetError::UnexpectedEnd);
    assert_eq!(parse_charset("[abc").unwrap_err(), CharsetError::UnexpectedEnd);
    assert_eq!(parse_charset("[a-").unwrap_err(), CharsetError::UnexpectedEnd);
    assert_eq!(parse_charset(r"[ab\").unwrap_err(), CharsetError::UnexpectedEnd);
    assert_eq!(parse_charset(r"[\q]").unwrap_err(), CharsetError::InvalidEscape('q'));
    assert_eq!(parse_charset(r"[\u12G4]").unwrap_err(), CharsetError::InvalidUnicodeEscape);
    assert_eq!(parse_charset(r"[\u12]").unwrap_err(), CharsetError::UnexpectedEnd);
    assert_eq!(parse_charset(r"[\uD800]").unwrap_err(), CharsetError::InvalidCodePoint(0xD800));
}

#[test]
fn charset_escapes() {
    let class = |s: &str| match parse_charset(s) {
        Ok(Operation::CharacterClass(items)) => items,
        other => panic!("{:?}", other),
    };
    let items = class(r"[\n\r\f\]\\\-Aé]");
    let chars: Vec<char> = items
        .iter()
        .map(|op| match op {
            Operation::Char(c) => *c,
            other => panic!("{:?}", other),
        })
        .collect();
    assert_eq!(chars, vec!['\n', '\r', '\u{c}', ']', '\\', '-', 'A', 'é']);
    let items = class(r"[0-9x]");
    assert!(matches!(items[0], Operation::CharRange(('0', '9'))));
    assert!(matches!(items[1], Operation::Char('x')));
    assert_eq!(items.len(), 2);
    assert!(class("[]").is_empty());
    assert!(matches!(class(r"[\u0041\u00e9]")[..], [Operation::Char('A'), Operation::Char('é')]));
    assert!(matches!(class(r"[\u0061-\u007A]")[..], [Operation::CharRange(('a', 'z'))]));
    assert!(matches!(class("[a]tail")[..], [Operation::Char('a')]));
}
