use regex::Regex;

use synfuzz::ast::{unroll_quantifier, Grammar, Operation, Rule, RuleType};
use synfuzz::{
    generate_rules, parse_charset, rule, translate_rule, AntlrError, BuildError, Entropy,
};

fn charset(s: &str) -> Operation {
    parse_charset(s).unwrap()
}

fn number_rule() -> Rule {
    Rule::new(
        "number".to_string(),
        RuleType::Lexer,
        vec![charset("[1-9]"), Operation::Star(Box::new(charset("[0-9]")))],
    )
}

#[test]
fn charset_ranges_and_single_characters() {
    match parse_charset("[a-zA-Z0-9]").unwrap() {
        Operation::CharacterClass(items) => {
            assert_eq!(items.len(), 3);
            assert!(matches!(items[0], Operation::CharRange(('a', 'z'))));
            assert!(matches!(items[1], Operation::CharRange(('A', 'Z'))));
            assert!(matches!(items[2], Operation::CharRange(('0', '9'))));
        }
        other => panic!("{:?}", other),
    }
    match parse_charset(r"[\t\b]").unwrap() {
        Operation::CharacterClass(items) => {
            assert_eq!(items.len(), 2);
            assert!(matches!(items[0], Operation::Char('\t')));
            assert!(matches!(items[1], Operation::Char('\u{8}')));
        }
        other => panic!("{:?}", other),
    }
}

#[test]
fn number_grammar_gives_numbers_without_leading_zero() {
    let grammar = Grammar::new("numbers".to_string(), vec![number_rule()]);
    let rules = generate_rules(&grammar).unwrap();
    let root = rule("number");
    for seed in 0..300u64 {
        let mut rng = Entropy::seeded(seed);
        let out = root.generate(&rules, &mut rng).unwrap();
        assert!(!out.is_empty());
        assert!(out.iter().all(|b| b.is_ascii_digit()));
        assert_ne!(out[0], b'0');
    }
}

#[test]
fn expression_grammar_gives_well_formed_sums() {
    let operator = Operation::Alternate(vec![
        vec![Operation::StringLiteral("+".to_string())],
        vec![Operation::StringLiteral("-".to_string())],
    ]);
    let tail = Operation::Group(vec![operator, Operation::Rule("expr".to_string())]);
    let expr = Rule::new(
        "expr".to_string(),
        RuleType::Lexer,
        vec![Operation::Rule("number".to_string()), Operation::Optional(Box::new(tail))],
    );
    let grammar = Grammar::new("expressions".to_string(), vec![expr, number_rule()]);
    let rules = generate_rules(&grammar).unwrap();
    let pattern = Regex::new(r"^[1-9][0-9]*([+-][1-9][0-9]*)*$").unwrap();
    for seed in 0..300u64 {
        let mut rng = Entropy::seeded(seed);
        let out = rule("expr").generate(&rules, &mut rng).unwrap();
        let text = String::from_utf8(out).unwrap();
        assert!(pattern.is_match(&text), "{}", text);
    }
}

#[test]
fn parser_rules_put_spaces_between_tokens() {
    let pair = Rule::new(
        "pair".to_string(),
        RuleType::Parser,
        vec![
            Operation::StringLiteral("key".to_string()),
            Operation::Char('='),
            Operation::Token("VALUE".to_string()),
        ],
    );
    let value = Rule::new(
        "VALUE".to_string(),
        RuleType::Lexer,
        vec![Operation::StringLiteral("v".to_string()), Operation::Char('1')],
    );
    let grammar = Grammar::new("pairs".to_string(), vec![pair, value]);
    let rules = generate_rules(&grammar).unwrap();
    let mut rng = Entropy::seeded(1);
    assert_eq!(rule("pair").generate(&rules, &mut rng), Ok(b"key = v1".to_vec()));
}

#[test]
fn later_rule_of_the_same_name_wins() {
    let first = Rule::new("A".to_string(), RuleType::Lexer, vec![Operation::Char('1')]);
    let second = Rule::new("A".to_string(), RuleType::Lexer, vec![Operation::Char('2')]);
    let grammar = Grammar::new("g".to_string(), vec![first, second]);
    assert_eq!(grammar.rules().len(), 2);
    let rules = generate_rules(&grammar).unwrap();
    let mut rng = Entropy::seeded(1);
    assert_eq!(rule("A").generate(&rules, &mut rng), Ok(b"2".to_vec()));
}

#[test]
fn translated_literals_and_negation() {
    let mut rng = Entropy::seeded(4);
    let rules = synfuzz::Rules::new();
    let range = Operation::Range(("a".to_string(), "c".to_string()));
    let g = translate_rule(&range, RuleType::Lexer).unwrap();
    let out = g.generate(&rules, &mut rng).unwrap();
    assert!(out.len() == 1 && (b'a'..=b'c').contains(&out[0]));
    let not_x = Operation::Not(Box::new(Operation::Char('x')));
    let g = translate_rule(&not_x, RuleType::Lexer).unwrap();
    let out = g.generate(&rules, &mut rng).unwrap();
    assert_ne!(out, b"x".to_vec());
    let any = translate_rule(&Operation::Any, RuleType::Lexer).unwrap();
    assert_eq!(any.generate(&rules, &mut rng).unwrap().len(), 1);
    let plus = Operation::Plus(Box::new(Operation::Char('q')));
    let g = translate_rule(&plus, RuleType::Lexer).unwrap();
    let out = g.generate(&rules, &mut rng).unwrap();
    assert!(!out.is_empty() && out.iter().all(|b| *b == b'q'));
}

#[test]
fn translation_errors() {
    let empty_bound = Operation::Range((String::new(), "z".to_string()));
    assert_eq!(
        translate_rule(&empty_bound, RuleType::Lexer).unwrap_err(),
        AntlrError::EmptyRangeBound
    );
    assert_eq!(
        translate_rule(&Operation::Alternate(vec![]), RuleType::Parser).unwrap_err(),
        AntlrError::Build(BuildError::EmptyChoice)
    );
    assert_eq!(
        translate_rule(&Operation::CharacterClass(vec![]), RuleType::Lexer).unwrap_err(),
        AntlrError::Build(BuildError::EmptyChoice)
    );
    let inverted = Operation::Group(vec![Operation::CharRange(('z', 'a'))]);
    assert_eq!(
        translate_rule(&inverted, RuleType::Lexer).unwrap_err(),
        AntlrError::Build(BuildError::InvertedCharRange('z', 'a'))
    );
    let bad = Rule::new("bad".to_string(), RuleType::Fragment, vec![inverted]);
    let grammar = Grammar::new("g".to_string(), vec![bad]);
    assert!(generate_rules(&grammar).is_err());
}

#[test]
fn quantifiers_fold_innermost_first() {
    let op = unroll_quantifier(
        vec!["?".to_string(), "*".to_string()],
        Operation::Char('a'),
    )
    .unwrap();
    match op {
        Operation::Star(inner) => match *inner {
            Operation::Optional(base) => assert!(matches!(*base, Operation::Char('a'))),
            other => panic!("{:?}", other),
        },
        other => panic!("{:?}", other),
    }
    assert!(matches!(
        unroll_quantifier(vec!["+".to_string()], Operation::Any),
        Some(Operation::Plus(_))
    ));
    assert!(matches!(unroll_quantifier(vec![], Operation::Any), Some(Operation::Any)));
    assert!(unroll_quantifier(vec!["x".to_string()], Operation::Any).is_none());
}
