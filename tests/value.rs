use synfuzz::{any, byte, ch, char_range, string, Entropy, Rules, STRING_MAX};

#[test]
fn generate_ch() {
    let rules = Rules::new();
    let mut rng = Entropy::seeded(1);
    let generator = ch('a');
    assert_eq!(generator.generate(&rules, &mut rng), Ok(vec![0x61]));
}

#[test]
fn negate_ch() {
    let rules = Rules::new();
    let mut rng = Entropy::seeded(2);
    let generator = ch('a');
    assert_ne!(generator.negate(&rules, &mut rng), Ok(vec![0x61]));
}

#[test]
fn generate_string() {
    let rules = Rules::new();
    let mut rng = Entropy::seeded(3);
    let generator = string("this is a test");
    assert_eq!(
        generator.generate(&rules, &mut rng),
        Ok("this is a test".as_bytes().to_vec())
    );
}

#[test]
fn negate_string() {
    let rules = Rules::new();
    let mut rng = Entropy::seeded(4);
    let generator = string("this is a test");
    let generated = generator.negate(&rules, &mut rng).unwrap();
    assert_ne!(generated, "this is a test".as_bytes());
    assert!(generated.len() < STRING_MAX);
}

#[test]
fn generate_byte() {
    let rules = Rules::new();
    let mut rng = Entropy::seeded(5);
    let generator = byte(0x42);
    assert_eq!(generator.generate(&rules, &mut rng), Ok(vec![0x42]));
}

#[test]
fn negate_byte() {
    let rules = Rules::new();
    let mut rng = Entropy::seeded(6);
    let generator = byte(0x42);
    assert_ne!(generator.negate(&rules, &mut rng), Ok(vec![0x42]));
}

#[test]
fn generate_char_range() {
    let rules = Rules::new();
    let mut rng = Entropy::seeded(7);
    let generator = char_range('a', 'c').unwrap();
    let generated = generator.generate(&rules, &mut rng).unwrap();
    let c = generated[0];
    assert!(c >= 0x61 && c <= 0x63);
}

#[test]
fn generate_any() {
    let rules = Rules::new();
    let mut rng = Entropy::seeded(8);
    let generator = any();
    let generated = generator.generate(&rules, &mut rng).unwrap();
    assert!(String::from_utf8(generated).is_ok());
}
