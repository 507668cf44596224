use mantra_vanity::derive::derive_address_from_mnemonic;
use mantra_vanity::keypair::Keypair;
use mantra_vanity::pattern::VanityPosition;
use mantra_vanity::search::{
    generate_random_keypair, generate_vanity_keypair, generate_vanity_keypair_with_position,
    has_phrase_length, keypair_from_entropy, Attempt, VanitySearch,
};

const ZERO_PHRASE: &str = "abandon abandon abandon abandon abandon abandon abandon abandon abandon abandon abandon abandon abandon abandon abandon abandon abandon abandon abandon abandon abandon abandon abandon art";
const ZERO_ADDRESS: &str = "mantra1r5v5srda7xfth3hn2s26txvrcrntldjusqdl59";

#[test]
fn keypair_holds_what_it_was_given() {
    let pair = Keypair::new(String::from("mantra1abc"), String::from("word word"));
    assert_eq!(pair.address(), "mantra1abc");
    assert_eq!(pair.mnemonic(), "word word");
}

#[test]
fn zero_entropy_gives_the_known_pair() {
    let pair = keypair_from_entropy(&[0u8; 32]).ok().unwrap();
    assert_eq!(pair.mnemonic(), ZERO_PHRASE);
    assert_eq!(pair.address(), ZERO_ADDRESS);
}

#[test]
fn thirty_two_bytes_give_twenty_four_words() {
    let samples: [[u8; 32]; 4] = [[0u8; 32], [0xff; 32], [0x5a; 32], [7u8; 32]];
    for entropy in samples.iter() {
        let pair = keypair_from_entropy(entropy).ok().unwrap();
        assert_eq!(pair.mnemonic().split(' ').count(), 24);
        assert_eq!(pair.mnemonic().split_whitespace().count(), 24);
    }
}

#[test]
fn phrase_length_counts_words() {
    assert!(has_phrase_length(ZERO_PHRASE));
    assert!(!has_phrase_length("abandon abandon about"));
    assert!(!has_phrase_length(""));
}

#[test]
fn random_keypair_is_derived_from_its_phrase() {
    let pair = generate_random_keypair().ok().unwrap();
    assert_eq!(pair.mnemonic().split(' ').count(), 24);
    assert!(pair.address().starts_with("mantra1"));
    assert_eq!(derive_address_from_mnemonic(&pair.mnemonic()), pair.address());
}

#[test]
fn random_keypairs_differ() {
    let first = generate_random_keypair().ok().unwrap();
    let second = generate_random_keypair().ok().unwrap();
    assert_ne!(first.mnemonic(), second.mnemonic());
}

#[test]
fn unsatisfiable_target_exhausts_the_budget() {
    let res = generate_vanity_keypair("qqqqqqqqqqqqqqqqqqqq", 1);
    assert!(matches!(res, Ok(None)));
    let res = generate_vanity_keypair_with_position(
        "qqqqqqqqqqqqqqqqqqqq",
        VanityPosition::Suffix,
        2,
    );
    assert!(matches!(res, Ok(None)));
}

#[test]
fn single_character_is_found_without_a_budget() {
    let pair = generate_vanity_keypair("q", 0).ok().unwrap().unwrap();
    assert!(pair.address().contains('q'));
    assert_eq!(derive_address_from_mnemonic(&pair.mnemonic()), pair.address());
}

#[test]
fn upper_case_target_is_found_in_lower_case() {
    let pair = generate_vanity_keypair_with_position("Q", VanityPosition::Anywhere, 0)
        .ok()
        .unwrap()
        .unwrap();
    assert!(pair.address().contains('q'));
}

#[test]
fn attempt_with_matching_entropy_is_found() {
    let mut search = VanitySearch::new("R5V5", VanityPosition::Prefix, 3);
    match search.try_entropy(&[0u8; 32]) {
        Attempt::Found(pair) => {
            assert_eq!(pair.address(), ZERO_ADDRESS);
            assert_eq!(pair.mnemonic(), ZERO_PHRASE);
        }
        _ => panic!("no match"),
    }
    assert_eq!(search.attempts(), 0);
    assert!(!search.exhausted());
}

#[test]
fn attempt_that_misses_is_counted() {
    let mut search = VanitySearch::new("r5v5", VanityPosition::Suffix, 2);
    assert!(matches!(search.try_entropy(&[0u8; 32]), Attempt::Missed));
    assert_eq!(search.attempts(), 1);
    assert!(!search.exhausted());
    assert!(matches!(search.try_entropy(&[0u8; 32]), Attempt::Missed));
    assert_eq!(search.attempts(), 2);
    assert!(search.exhausted());
    assert!(matches!(search.try_entropy(&[0u8; 32]), Attempt::Exhausted));
    assert_eq!(search.attempts(), 2);
    assert!(matches!(search.try_once(), Attempt::Exhausted));
}

#[test]
fn search_without_a_budget_is_not_exhausted() {
    let mut search = VanitySearch::new("zzzzzzzz", VanityPosition::Anywhere, 0);
    assert!(!search.exhausted());
    assert!(matches!(search.try_entropy(&[0u8; 32]), Attempt::Missed));
    assert!(!search.exhausted());
    assert_eq!(search.attempts(), 1);
}

#[test]
fn counter_without_a_budget_keeps_counting() {
    let mut search = VanitySearch::new("zzzzzzzz", VanityPosition::Suffix, 0);
    for n in 1..=3u32 {
        assert!(matches!(search.try_entropy(&[0u8; 32]), Attempt::Missed));
        assert_eq!(search.attempts(), n);
        assert!(!search.exhausted());
    }
    assert!(!matches!(search.try_once(), Attempt::Exhausted));
}

#[test]
fn fresh_attempt_finds_what_every_address_holds() {
    let mut search = VanitySearch::new("MANTRA1", VanityPosition::Anywhere, 1);
    match search.try_once() {
        Attempt::Found(pair) => {
            assert!(pair.address().starts_with("mantra1"));
            assert_eq!(pair.mnemonic().split(' ').count(), 24);
        }
        _ => panic!("no match"),
    }
    assert_eq!(search.attempts(), 0);
}

#[test]
fn fresh_attempt_that_misses_is_counted() {
    let mut search = VanitySearch::new("bbbb", VanityPosition::Anywhere, 1);
    assert!(matches!(search.try_once(), Attempt::Missed));
    assert_eq!(search.attempts(), 1);
    assert!(matches!(search.try_once(), Attempt::Exhausted));
    assert_eq!(search.attempts(), 1);
}

#[test]
fn suffix_of_the_known_address_is_found() {
    let mut search = VanitySearch::new("dl59", VanityPosition::Suffix, 1);
    assert!(matches!(search.try_entropy(&[0u8; 32]), Attempt::Found(_)));
    let mut anywhere = VanitySearch::new("dl59", VanityPosition::Anywhere, 1);
    assert!(matches!(anywhere.try_entropy(&[0u8; 32]), Attempt::Found(_)));
}
