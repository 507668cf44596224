//! An address together with the recovery phrase that it was derived from.

use vstd::prelude::*;

verus! {

/// What a keypair holds, as two texts.
pub struct KeypairView {
    pub address: Seq<char>,
    pub mnemonic: Seq<char>,
}

/// An address and its recovery phrase. Nothing changes either once the pair
/// is made.
pub struct Keypair {
    address: String,
    mnemonic: String,
}

impl View for Keypair {
    type V = KeypairView;

    closed spec fn view(&self) -> KeypairView {
        KeypairView { address: self.address@, mnemonic: self.mnemonic@ }
    }
}

impl Keypair {
    /// Pairs an address with a recovery phrase.
    pub fn new(address: String, mnemonic: String) -> (pair: Keypair)
        ensures
            pair@ == (KeypairView { address: address@, mnemonic: mnemonic@ }),
    {
        Keypair { address, mnemonic }
    }

    /// The address.
    pub fn address(&self) -> (text: String)
        ensures
            text@ == self@.address,
    {
        self.address.clone()
    }

    /// The recovery phrase.
    pub fn mnemonic(&self) -> (text: String)
        ensures
            text@ == self@.mnemonic,
    {
        self.mnemonic.clone()
    }
}

} // verus!
