use mantra_vanity::pattern::{
    chars_of, found_anywhere, found_at, matches_exactly, pattern_char, pattern_matches,
    validate_target_string, VanityPosition,
};

const ADDRESS: &str = "mantra1testxyzqpzry9x8gf2tvdw0s3jn54khce6mua7l";

#[test]
fn target_with_a_foreign_character_is_invalid() {
    assert!(!validate_target_string("abc123"));
    assert!(!validate_target_string("b"));
    assert!(!validate_target_string("i"));
    assert!(!validate_target_string("o"));
    assert!(!validate_target_string("qpzb"));
    assert!(!validate_target_string("Q"));
    assert!(!validate_target_string("q z"));
}

#[test]
fn target_of_alphabet_characters_is_valid() {
    assert!(validate_target_string("qpz"));
    assert!(validate_target_string("qpzry9x8gf2tvdw0s3jn54khce6mua7l"));
    assert!(validate_target_string("1"));
    assert!(validate_target_string("a1c"));
    assert!(validate_target_string(""));
}

#[test]
fn pattern_char_is_separator_or_alphabet() {
    for c in "qpzry9x8gf2tvdw0s3jn54khce6mua7l1".chars() {
        assert!(pattern_char(c));
    }
    for c in "bioBIOQ -_".chars() {
        assert!(!pattern_char(c));
    }
}

#[test]
fn chars_of_gives_each_character() {
    assert_eq!(chars_of("a1z"), vec!['a', '1', 'z']);
    assert_eq!(chars_of(""), Vec::<char>::new());
}

#[test]
fn prefix_matches_right_behind_the_separator() {
    assert!(matches_exactly(ADDRESS, "test", VanityPosition::Prefix));
    assert!(!matches_exactly(ADDRESS, "est", VanityPosition::Prefix));
    assert!(!matches_exactly(ADDRESS, "mantra", VanityPosition::Prefix));
    assert!(pattern_matches(ADDRESS, "test", VanityPosition::Prefix));
}

#[test]
fn suffix_matches_only_at_the_end() {
    assert!(!matches_exactly(ADDRESS, "test", VanityPosition::Suffix));
    assert!(matches_exactly(ADDRESS, "ua7l", VanityPosition::Suffix));
    assert!(matches_exactly(ADDRESS, ADDRESS, VanityPosition::Suffix));
    assert!(!matches_exactly("l", "ua7l", VanityPosition::Suffix));
}

#[test]
fn anywhere_matches_every_occurrence() {
    assert!(matches_exactly(ADDRESS, "test", VanityPosition::Anywhere));
    assert!(matches_exactly(ADDRESS, "ua7l", VanityPosition::Anywhere));
    assert!(matches_exactly(ADDRESS, "xyzq", VanityPosition::Anywhere));
    assert!(matches_exactly(ADDRESS, "mantra1", VanityPosition::Anywhere));
    assert!(!matches_exactly(ADDRESS, "tset", VanityPosition::Anywhere));
    assert!(!matches_exactly("abc", "abcd", VanityPosition::Anywhere));
}

#[test]
fn anywhere_covers_prefix_and_suffix() {
    let targets = ["test", "ua7l", "t", "l", "xyz", "zzz", "", "mantra1"];
    for target in targets.iter() {
        let anywhere = matches_exactly(ADDRESS, target, VanityPosition::Anywhere);
        if matches_exactly(ADDRESS, target, VanityPosition::Prefix) {
            assert!(anywhere);
        }
        if matches_exactly(ADDRESS, target, VanityPosition::Suffix) {
            assert!(anywhere);
        }
    }
}

#[test]
fn prefix_needs_seven_characters_and_the_target() {
    assert!(matches_exactly("mantra1test", "test", VanityPosition::Prefix));
    assert!(!matches_exactly("mantra1tes", "test", VanityPosition::Prefix));
    assert!(!matches_exactly("mantra", "", VanityPosition::Prefix));
    assert!(matches_exactly("mantra1", "", VanityPosition::Prefix));
}

#[test]
fn empty_target_matches_everywhere() {
    assert!(matches_exactly(ADDRESS, "", VanityPosition::Anywhere));
    assert!(matches_exactly(ADDRESS, "", VanityPosition::Prefix));
    assert!(matches_exactly(ADDRESS, "", VanityPosition::Suffix));
    assert!(matches_exactly("", "", VanityPosition::Anywhere));
}

#[test]
fn matching_ignores_case() {
    assert!(pattern_matches("MANTRA1TESTXYZ", "test", VanityPosition::Prefix));
    assert!(pattern_matches("mantra1testxyz", "TEST", VanityPosition::Anywhere));
    assert!(pattern_matches("mantra1testXYZ", "xYz", VanityPosition::Suffix));
    assert!(!matches_exactly("mantra1testxyz", "TEST", VanityPosition::Anywhere));
    assert!(!pattern_matches("mantra1testxyz", "TEXT", VanityPosition::Anywhere));
}

#[test]
fn found_at_compares_at_one_offset() {
    let text = chars_of("hello");
    assert!(found_at(&text, &chars_of("ell"), 1));
    assert!(!found_at(&text, &chars_of("ell"), 0));
    assert!(!found_at(&text, &chars_of("lo"), 4));
    assert!(found_at(&text, &chars_of(""), 5));
    assert!(!found_at(&text, &chars_of(""), 6));
    assert!(found_anywhere(&text, &chars_of("lo")));
    assert!(!found_anywhere(&text, &chars_of("ol")));
}

#[test]
fn default_position_is_anywhere() {
    assert!(VanityPosition::default() == VanityPosition::Anywhere);
}
