use synfuzz::{
    any, byte, ch, char_range, choice, join_with, many, many1, not, optional, range,
    register_rule, repeat_n, rule, sep_by, sep_by1, string, Entropy, GenerateError, Rules,
    MANY_MAX, SEP_BY_MAX,
};

#[test]
fn literals_generate_their_bytes_and_negate_to_others() {
    let rules = Rules::new();
    for seed in 0..200u64 {
        let mut rng = Entropy::seeded(seed);
        assert_eq!(ch('é').generate(&rules, &mut rng), Ok(vec![0xC3, 0xA9]));
        assert_eq!(ch('€').generate(&rules, &mut rng), Ok(vec![0xE2, 0x82, 0xAC]));
        assert_eq!(
            ch('😀').generate(&rules, &mut rng),
            Ok(vec![0xF0, 0x9F, 0x98, 0x80])
        );
        assert_eq!(string("héllo").generate(&rules, &mut rng), Ok("héllo".as_bytes().to_vec()));
        assert_eq!(byte(0x00).generate(&rules, &mut rng), Ok(vec![0x00]));

        let c = ch('x').negate(&rules, &mut rng).unwrap();
        let decoded = String::from_utf8(c).unwrap();
        assert_eq!(decoded.chars().count(), 1);
        assert_ne!(decoded, "x");

        let b = byte(0xFF).negate(&rules, &mut rng).unwrap();
        assert_eq!(b.len(), 1);
        assert_ne!(b[0], 0xFF);

        let s = string("ab").negate(&rules, &mut rng).unwrap();
        assert_ne!(s, b"ab".to_vec());
        assert!(s.len() < 12);
        assert!(s.iter().all(|b| b.is_ascii_alphanumeric()));
    }
}

#[test]
fn empty_string_negates_to_a_non_empty_string() {
    let rules = Rules::new();
    for seed in 0..100u64 {
        let mut rng = Entropy::seeded(seed);
        let s = string("").negate(&rules, &mut rng).unwrap();
        assert!(!s.is_empty());
    }
}

#[test]
fn many_and_many1_repetition_counts() {
    let rules = Rules::new();
    let mut saw_empty = false;
    let mut saw_long = false;
    for seed in 0..500u64 {
        let mut rng = Entropy::seeded(seed);
        let a = many(byte(0x41)).generate(&rules, &mut rng).unwrap();
        assert!(a.len() < MANY_MAX);
        assert!(a.iter().all(|b| *b == 0x41));
        saw_empty |= a.is_empty();
        saw_long |= a.len() == MANY_MAX - 1;
        let b = many1(byte(0x41)).generate(&rules, &mut rng).unwrap();
        assert!(b.len() >= 1 && b.len() < MANY_MAX);
        let n = many1(byte(0x41)).negate(&rules, &mut rng).unwrap();
        assert!(n.len() < MANY_MAX);
        assert!(n.iter().all(|b| *b != 0x41));
    }
    assert!(saw_empty);
    assert!(saw_long);
}

#[test]
fn repeat_n_negation_never_has_n_repetitions() {
    let rules = Rules::new();
    for seed in 0..500u64 {
        let mut rng = Entropy::seeded(seed);
        let out = repeat_n(byte(0x41), 5).negate(&rules, &mut rng).unwrap();
        assert_ne!(out.len(), 5);
        assert!(out.len() <= 20);
        assert!(out.iter().all(|b| *b != 0x41));
    }
    let mut rng = Entropy::seeded(1);
    assert_eq!(repeat_n(byte(0x41), 0).generate(&rules, &mut rng), Ok(vec![]));
}

#[test]
fn optional_is_present_about_half_the_time() {
    let rules = Rules::new();
    let mut rng = Entropy::seeded(99);
    let generator = optional(string("xy"));
    let mut present = 0;
    let trials = 4000;
    for _ in 0..trials {
        let out = generator.generate(&rules, &mut rng).unwrap();
        if out.is_empty() {
            continue;
        }
        assert_eq!(out, b"xy".to_vec());
        present += 1;
    }
    assert!(present > trials * 45 / 100 && present < trials * 55 / 100);
}

#[test]
fn choice_picks_each_choice_about_equally() {
    let rules = Rules::new();
    let mut rng = Entropy::seeded(7);
    let generator = choice(vec![string("aa"), string("bbb")]).unwrap();
    let (mut a, mut b) = (0, 0);
    let trials = 4000;
    for _ in 0..trials {
        let out = generator.generate(&rules, &mut rng).unwrap();
        if out == b"aa".to_vec() {
            a += 1;
        } else {
            assert_eq!(out, b"bbb".to_vec());
            b += 1;
        }
    }
    assert!(a > trials * 45 / 100 && b > trials * 45 / 100);
}

#[test]
fn choice_of_one_negates_that_choice() {
    let rules = Rules::new();
    let mut rng = Entropy::seeded(3);
    let out = choice(vec![byte(0x41)]).unwrap().negate(&rules, &mut rng).unwrap();
    assert_eq!(out.len(), 1);
    assert_ne!(out[0], 0x41);
}

#[test]
fn double_negation_behaves_as_the_generator() {
    let rules = Rules::new();
    for seed in 0..100u64 {
        let plain = many(choice(vec![byte(0x41), ch('z')]).unwrap());
        let twice = not(not(many(choice(vec![byte(0x41), ch('z')]).unwrap())));
        let mut r1 = Entropy::seeded(seed);
        let mut r2 = Entropy::seeded(seed);
        assert_eq!(plain.generate(&rules, &mut r1), twice.generate(&rules, &mut r2));

        let plain = repeat_n(byte(0x41), 3);
        let twice = not(not(repeat_n(byte(0x41), 3)));
        let mut r1 = Entropy::seeded(seed);
        let mut r2 = Entropy::seeded(seed);
        assert_eq!(plain.negate(&rules, &mut r1), twice.negate(&rules, &mut r2));
    }
}

#[test]
fn registered_rule_resolves_and_last_registration_wins() {
    let mut rules = Rules::new();
    register_rule(&mut rules, "R", string("first"));
    let mut rng = Entropy::seeded(5);
    assert_eq!(rule("R").generate(&rules, &mut rng), Ok(b"first".to_vec()));
    register_rule(&mut rules, "R", string("second"));
    assert_eq!(rule("R").generate(&rules, &mut rng), Ok(b"second".to_vec()));
    assert!(rules.contains("R"));
    assert!(!rules.contains("r"));
    assert_eq!(
        rule("r").generate(&rules, &mut rng),
        Err(GenerateError::UnknownRule("r".to_string()))
    );
}

#[test]
fn forward_references_resolve_at_generation() {
    let mut rules = Rules::new();
    register_rule(&mut rules, "pair", synfuzz::combinator::seq(vec![rule("item"), rule("item")]));
    register_rule(&mut rules, "item", byte(0x2A));
    let mut rng = Entropy::seeded(1);
    assert_eq!(rule("pair").generate(&rules, &mut rng), Ok(vec![0x2A, 0x2A]));
}

#[test]
fn endless_recursion_stops_at_the_depth_limit() {
    let mut rules = Rules::new();
    register_rule(&mut rules, "loop", rule("loop"));
    let mut rng = Entropy::seeded(1);
    assert_eq!(rule("loop").generate(&rules, &mut rng), Err(GenerateError::DepthExhausted));
}

#[test]
fn sequence_and_join() {
    let rules = Rules::new();
    let mut rng = Entropy::seeded(2);
    assert_eq!(
        synfuzz::combinator::seq(vec![ch('a'), string("bc"), byte(0x64)]).generate(&rules, &mut rng),
        Ok(b"abcd".to_vec())
    );
    assert_eq!(
        join_with(vec![ch('A'), ch('B'), ch('C')], ch(' ')).generate(&rules, &mut rng),
        Ok(b"A B C".to_vec())
    );
    assert_eq!(join_with(vec![ch('A')], ch(' ')).generate(&rules, &mut rng), Ok(b"A".to_vec()));
    assert_eq!(join_with(vec![], ch(' ')).generate(&rules, &mut rng), Ok(vec![]));
}

#[test]
fn separated_repetitions() {
    let rules = Rules::new();
    let re = regex::Regex::new(r"\A(A(,A)*)?\z").unwrap();
    let re1 = regex::Regex::new(r"\AA(,A)*\z").unwrap();
    for seed in 0..300u64 {
        let mut rng = Entropy::seeded(seed);
        let out = sep_by(ch('A'), ch(',')).generate(&rules, &mut rng).unwrap();
        let s = String::from_utf8(out).unwrap();
        assert!(re.is_match(&s));
        assert!(s.matches('A').count() < SEP_BY_MAX);
        let out = sep_by1(ch('A'), ch(',')).generate(&rules, &mut rng).unwrap();
        let s = String::from_utf8(out).unwrap();
        assert!(re1.is_match(&s));
    }
}

#[test]
fn counted_range_repeats_between_its_bounds() {
    let rules = Rules::new();
    let mut seen = [false; 5];
    for seed in 0..300u64 {
        let mut rng = Entropy::seeded(seed);
        let out = range(byte(0x41), 2, 5).unwrap().generate(&rules, &mut rng).unwrap();
        assert!(out.len() >= 2 && out.len() < 5);
        seen[out.len()] = true;
    }
    assert!(seen[2] && seen[3] && seen[4]);
}

#[test]
fn char_range_stays_inside_and_negation_outside() {
    let rules = Rules::new();
    for seed in 0..300u64 {
        let mut rng = Entropy::seeded(seed);
        let out = char_range('à', 'ÿ').unwrap().generate(&rules, &mut rng).unwrap();
        let c = String::from_utf8(out).unwrap().chars().next().unwrap();
        assert!(('à'..='ÿ').contains(&c));
        let out = char_range('\u{D000}', '\u{E000}').unwrap().generate(&rules, &mut rng).unwrap();
        let c = String::from_utf8(out).unwrap().chars().next().unwrap();
        assert!(('\u{D000}'..='\u{E000}').contains(&c));
        let out = char_range('a', 'z').unwrap().negate(&rules, &mut rng).unwrap();
        let c = String::from_utf8(out).unwrap().chars().next().unwrap();
        assert!(!('a'..='z').contains(&c));
    }
    let mut rng = Entropy::seeded(1);
    assert_eq!(
        char_range('a', 'a').unwrap().generate(&rules, &mut rng),
        Ok(b"a".to_vec())
    );
}

#[test]
fn any_gives_one_alphanumeric_character() {
    let rules = Rules::new();
    for seed in 0..200u64 {
        let mut rng = Entropy::seeded(seed);
        let out = any().generate(&rules, &mut rng).unwrap();
        assert_eq!(out.len(), 1);
        assert!(out[0].is_ascii_alphanumeric());
    }
}

#[test]
fn seeded_entropy_is_reproducible() {
    let rules = Rules::new();
    let g = many(any());
    let mut r1 = Entropy::seeded(42);
    let mut r2 = Entropy::seeded(42);
    for _ in 0..20 {
        assert_eq!(g.generate(&rules, &mut r1), g.generate(&rules, &mut r2));
    }
    let mut os = Entropy::from_os().unwrap();
    assert!(g.generate(&rules, &mut os).is_ok());
}

#[test]
fn entropy_draws_stay_in_bounds() {
    let mut rng = Entropy::seeded(9);
    let mut seen = [false; 3];
    for _ in 0..300 {
        let x = rng.below(3);
        assert!(x < 3);
        seen[x] = true;
        let y = rng.between(10, 13);
        assert!((10..13).contains(&y));
        assert!(rng.alphanumeric().is_ascii_alphanumeric());
    }
    assert!(seen[0] && seen[1] && seen[2]);
}
