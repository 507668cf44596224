//! Deterministic derivation of `mantra1...` account addresses from mnemonic
//! recovery phrases, and the search for phrases whose address shows a chosen
//! pattern.

pub mod derive;
pub mod encoding;
pub mod keypair;
pub mod pattern;
pub mod primitives;
pub mod search;

pub use derive::{derive_address_from_mnemonic, KeyError};
pub use keypair::Keypair;
pub use pattern::{validate_target_string, VanityPosition};
pub use search::{
    generate_random_keypair, generate_vanity_keypair, generate_vanity_keypair_with_position,
};
