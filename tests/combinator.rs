use regex::Regex;

use synfuzz::{
    byte, choice, many, many1, not, optional, register_rule, repeat_n, rule, Entropy,
    GenerateError, Rules, MANY_MAX,
};

#[test]
fn generate_choice() {
    let rules = Rules::new();
    let mut rng = Entropy::seeded(11);
    let generator = choice(vec![byte(0x41), byte(0x42)]).unwrap();
    let generated = generator.generate(&rules, &mut rng).unwrap();
    assert!(generated == vec![0x41] || generated == vec![0x42]);
}

#[test]
fn negate_choice() {
    let rules = Rules::new();
    let mut rng = Entropy::seeded(12);
    let generator = choice(vec![byte(0x41), byte(0x42)]).unwrap();
    let generated = generator.negate(&rules, &mut rng);
    assert!(generated != Ok(vec![0x41]) && generated != Ok(vec![0x42]));
}

#[test]
fn generate_many() {
    let rules = Rules::new();
    let mut rng = Entropy::seeded(13);
    let generator = many(byte(0x41));
    let generated = generator.generate(&rules, &mut rng).unwrap();
    let generated_string = String::from_utf8_lossy(&generated);
    assert!(generated.len() < MANY_MAX);
    let r = Regex::new(r"\AA*\z").unwrap();
    assert!(r.is_match(&generated_string));
}

#[test]
fn negate_many() {
    let rules = Rules::new();
    let mut rng = Entropy::seeded(14);
    let generator = many(byte(0x41));
    let generated = generator.negate(&rules, &mut rng).unwrap();
    let generated_string = String::from_utf8_lossy(&generated);
    assert!(generated.len() < MANY_MAX);
    let r = Regex::new(r"\A[^A]*\z").unwrap();
    assert!(r.is_match(&generated_string));
}

#[test]
fn generate_many1() {
    let rules = Rules::new();
    let mut rng = Entropy::seeded(15);
    let generator = many1(byte(0x41));
    let generated = generator.generate(&rules, &mut rng).unwrap();
    let generated_string = String::from_utf8_lossy(&generated);
    assert!(generated.len() > 0 && generated.len() < MANY_MAX);
    let r = Regex::new(r"\AA+\z").unwrap();
    assert!(r.is_match(&generated_string));
}

#[test]
fn negate_many1() {
    let rules = Rules::new();
    let mut rng = Entropy::seeded(16);
    let generator = many1(byte(0x41));
    let generated = generator.negate(&rules, &mut rng).unwrap();
    let generated_string = String::from_utf8_lossy(&generated);
    assert!(generated.len() < MANY_MAX);
    let r = Regex::new(r"\A[^A]*\z").unwrap();
    assert!(r.is_match(&generated_string));
}

#[test]
fn generate_optional() {
    let rules = Rules::new();
    let mut rng = Entropy::seeded(17);
    let generator = optional(byte(0x41));
    let generated = generator.generate(&rules, &mut rng).unwrap();
    assert!(generated.len() < 2);
    if generated.len() > 0 {
        assert!(generated == vec![0x41]);
    }
}

#[test]
fn negate_optional() {
    let rules = Rules::new();
    let mut rng = Entropy::seeded(18);
    let generator = optional(byte(0x41));
    let generated = generator.negate(&rules, &mut rng).unwrap();
    assert!(generated.len() < 2);
    if generated.len() > 0 {
        assert_ne!(generated, vec![0x41]);
    }
}

#[test]
fn generate_rule() {
    let mut rules = Rules::new();
    let mut rng = Entropy::seeded(19);
    let the_rule = byte(0x41);
    register_rule(&mut rules, "rule", the_rule);
    let generator = rule("rule");
    let generated = generator.generate(&rules, &mut rng);
    assert!(generated == Ok(vec![0x41]));
}

#[test]
fn negate_rule() {
    let mut rules = Rules::new();
    let mut rng = Entropy::seeded(20);
    let the_rule = byte(0x41);
    register_rule(&mut rules, "rule", the_rule);
    let generator = rule("rule");
    let generated = generator.negate(&rules, &mut rng);
    assert_ne!(generated, Ok(vec![0x41]));
}

#[test]
fn generate_repeatn() {
    let rules = Rules::new();
    let mut rng = Entropy::seeded(21);
    let generator = repeat_n(byte(0x41), 5);
    let generated = generator.generate(&rules, &mut rng);
    assert!(generated == Ok(vec![0x41, 0x41, 0x41, 0x41, 0x41]));
}

#[test]
fn negate_repeatn() {
    let rules = Rules::new();
    let mut rng = Entropy::seeded(22);
    let generator = repeat_n(byte(0x41), 5);
    let generated = generator.negate(&rules, &mut rng);
    assert_ne!(generated, Ok(vec![0x41, 0x41, 0x41, 0x41, 0x41]));
}

#[test]
fn generate_not() {
    let rules = Rules::new();
    let mut rng = Entropy::seeded(23);
    let generator = not(byte(0x41));
    let generated = generator.generate(&rules, &mut rng);
    assert_ne!(generated, Ok(vec![0x41]));
}

#[test]
fn negate_not() {
    let rules = Rules::new();
    let mut rng = Entropy::seeded(24);
    let generator = not(byte(0x41));
    let generated = generator.negate(&rules, &mut rng);
    assert!(generated == Ok(vec![0x41]));
}

#[test]
fn unknown_rule_is_an_error() {
    let rules = Rules::new();
    let mut rng = Entropy::seeded(25);
    let generated = rule("missing").generate(&rules, &mut rng);
    assert_eq!(generated, Err(GenerateError::UnknownRule("missing".to_string())));
}
