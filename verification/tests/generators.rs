use keygen::generators::{
    gen_base64_key, gen_hex_key, gen_passphrase, gen_password, gen_pin, gen_wpa_key, generate,
    GenType, ASCII_PRINTABLE, DIGITS, LOWER, SYMBOLS, UPPER,
};
use keygen::generators::WORDS;
use keygen::rng::Rng;

fn spread(n: u32, seed: u32) -> Vec<u32> {
    (0..n).map(|i| i.wrapping_add(seed).wrapping_mul(2654435761).rotate_left(7)).collect()
}

#[test]
fn pin_digits_follow_draws() {
    let mut rng = Rng::new(vec![0, 1, 2, 13]);
    assert_eq!(gen_pin(&mut rng, 4).as_deref(), Some("0123"));
}

#[test]
fn pin_is_digits_only() {
    let mut rng = Rng::new(spread(64, 3));
    let pin = gen_pin(&mut rng, 12).unwrap();
    assert_eq!(pin.len(), 12);
    assert!(pin.chars().all(|c| DIGITS.contains(&c)));
}

#[test]
fn wpa_key_follows_draws() {
    let mut rng = Rng::new(vec![0, 26, 52, 75]);
    assert_eq!(gen_wpa_key(&mut rng, 4).as_deref(), Some("Aa0+"));
}

#[test]
fn wpa_key_uses_printable_set() {
    let mut rng = Rng::new(spread(200, 9));
    let key = gen_wpa_key(&mut rng, 63).unwrap();
    assert_eq!(key.chars().count(), 63);
    assert!(key.chars().all(|c| ASCII_PRINTABLE.contains(&c)));
}

#[test]
fn short_password_draws_from_whole_set() {
    let mut rng = Rng::new(vec![0, 26, 87]);
    assert_eq!(gen_password(&mut rng, 3).as_deref(), Some("aA?"));
}

#[test]
fn password_of_four_is_one_of_each_class_shuffled() {
    let mut rng = Rng::new(vec![0; 10]);
    assert_eq!(gen_password(&mut rng, 4).as_deref(), Some("A0!a"));
}

#[test]
fn password_follows_draws() {
    let words: Vec<u32> = (1..=34).collect();
    let mut rng = Rng::new(words);
    assert_eq!(gen_password(&mut rng, 16).as_deref(), Some("3flnjmoqhpbkig%C"));
}

#[test]
fn password_holds_every_class() {
    for seed in 0..20u32 {
        let mut rng = Rng::new(spread(300, seed));
        let pw = gen_password(&mut rng, 8).unwrap();
        assert_eq!(pw.chars().count(), 8);
        assert!(pw.chars().any(|c| LOWER.contains(&c)));
        assert!(pw.chars().any(|c| UPPER.contains(&c)));
        assert!(pw.chars().any(|c| DIGITS.contains(&c)));
        assert!(pw.chars().any(|c| SYMBOLS.contains(&c)));
    }
}

#[test]
fn empty_password() {
    let mut rng = Rng::new(vec![]);
    assert_eq!(gen_password(&mut rng, 0).as_deref(), Some(""));
}

#[test]
fn passphrase_joins_words_with_dashes() {
    let mut rng = Rng::new(vec![0, 1, 2]);
    assert_eq!(gen_passphrase(&mut rng, 3).as_deref(), Some("about-above-acid"));
}

#[test]
fn passphrase_words_come_from_list() {
    let mut rng = Rng::new(spread(50, 5));
    let phrase = gen_passphrase(&mut rng, 6).unwrap();
    let words: Vec<&str> = phrase.split('-').collect();
    assert_eq!(words.len(), 6);
    assert!(words.iter().all(|w| WORDS.contains(w)));
}

#[test]
fn hex_key_from_words() {
    let mut rng = Rng::new(vec![0x712C8F4A, 0x96B0E5D3]);
    assert_eq!(gen_hex_key(&mut rng, 8).as_deref(), Some("4A8F2C71D3E5B096"));
}

#[test]
fn base64_key_from_words() {
    let mut rng = Rng::new(vec![0x6c6c6568, 0x6f]);
    assert_eq!(gen_base64_key(&mut rng, 5).as_deref(), Some("aGVsbG8="));
}

#[test]
fn key_lengths_per_type() {
    let mut rng = Rng::new(spread(500, 11));
    assert_eq!(generate(&mut rng, GenType::HexKey, 32).unwrap().len(), 64);
    assert_eq!(generate(&mut rng, GenType::Base64Key, 32).unwrap().len(), 44);
    assert_eq!(generate(&mut rng, GenType::Pin, 6).unwrap().len(), 6);
    assert_eq!(generate(&mut rng, GenType::WpaKey, 20).unwrap().len(), 20);
    assert_eq!(generate(&mut rng, GenType::Password, 16).unwrap().len(), 16);
    assert_eq!(generate(&mut rng, GenType::Passphrase, 6).unwrap().split('-').count(), 6);
}

#[test]
fn generators_report_exhausted_supply() {
    for t in GenType::all() {
        let mut rng = Rng::new(vec![]);
        assert_eq!(generate(&mut rng, *t, 8), None);
    }
}

#[test]
fn same_words_give_same_key() {
    let a = generate(&mut Rng::new(spread(100, 2)), GenType::Password, 20);
    let b = generate(&mut Rng::new(spread(100, 2)), GenType::Password, 20);
    assert_eq!(a, b);
}

#[test]
fn passphrase_has_one_dash_fewer_than_words() {
    for n in 1..13usize {
        let mut rng = Rng::new(spread(60, n as u32));
        let phrase = gen_passphrase(&mut rng, n).unwrap();
        assert_eq!(phrase.matches('-').count(), n - 1);
    }
    let mut rng = Rng::new(vec![]);
    assert_eq!(gen_passphrase(&mut rng, 0).as_deref(), Some(""));
}

#[test]
fn no_word_holds_a_dash() {
    assert_eq!(WORDS.len(), 631);
    assert!(WORDS.iter().all(|w| !w.contains('-') && !w.is_empty()));
}

#[test]
fn entropy_fits_marks_overflow() {
    assert!(keygen::generators::entropy_fits(GenType::Password, 715827882));
    assert!(!keygen::generators::entropy_fits(GenType::Password, 715827883));
    assert!(keygen::generators::entropy_fits(GenType::Passphrase, 64));
    assert!(!keygen::generators::entropy_fits(GenType::Pin, 1431655766));
}
