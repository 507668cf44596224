use mantra_vanity::{
    derive_address_from_mnemonic, generate_random_keypair, generate_vanity_keypair,
    generate_vanity_keypair_with_position, validate_target_string, KeyError, Keypair,
    VanityPosition,
};

#[test]
fn crate_root_offers_the_whole_interface() {
    assert!(validate_target_string("qpz"));
    assert!(!validate_target_string("b"));
    let pair: Keypair = generate_random_keypair().ok().unwrap();
    assert_eq!(derive_address_from_mnemonic(&pair.mnemonic()), pair.address());
    let found = generate_vanity_keypair_with_position("m", VanityPosition::Anywhere, 1);
    assert!(matches!(found, Ok(Some(_))));
    let none: Result<Option<Keypair>, KeyError> = generate_vanity_keypair("bbbb", 3);
    assert!(matches!(none, Ok(None)));
}

#[test]
fn prefix_search_finds_what_every_address_starts_with() {
    let found = generate_vanity_keypair_with_position("", VanityPosition::Prefix, 1);
    assert!(matches!(found, Ok(Some(_))));
    let found = generate_vanity_keypair_with_position("MANTRA1", VanityPosition::Anywhere, 1);
    assert!(matches!(found, Ok(Some(_))));
}
