//! The key derivation engine: from a seed down the fixed path
//! 44'/118'/0'/0/0 to a private scalar, and from there to the address.

use vstd::prelude::*;
use vstd::string::StringExecFns;
use crate::encoding::{
    be_encode, be_value, index_bytes, is_zero, lemma_encode_len, lemma_encode_of_value,
    lemma_value_of_encode, radix_power,
};
use crate::primitives::{
    bech32_encode, bech32_text, compressed_public_key, curve_order, hmac_sha512,
    hmac_sha512_bytes, mnemonic_seed, public_key_bytes, ripemd160,
    ripemd160_digest, scalar_add, scalar_is_canonical, seed_from_phrase, sha256, sha256_digest,
};

verus! {

/// Why no address came out.
#[derive(Clone, Copy, Debug, PartialEq, Eq, Structural)]
pub enum KeyError {
    /// The platform's random source gave no bytes.
    EntropySource,
    /// The text is no recovery phrase: a word is unknown, the word count is
    /// wrong or the checksum fails.
    MnemonicParse,
    /// A MAC could not be keyed, a 32-byte block is no scalar of the curve, or
    /// a scalar has no public key.
    KeyDerivation,
    /// The address encoder refused its input.
    Encoding,
}

/// A private scalar with its chain code, as mathematics sees it.
pub struct KeyState {
    pub scalar: Seq<u8>,
    pub chain_code: Seq<u8>,
}

/// A private scalar, held as 32 big-endian bytes, with its chain code.
pub struct ExtendedKey {
    scalar: [u8; 32],
    chain_code: [u8; 32],
}

impl View for ExtendedKey {
    type V = KeyState;

    closed spec fn view(&self) -> KeyState {
        KeyState { scalar: self.scalar@, chain_code: self.chain_code@ }
    }
}

impl ExtendedKey {
    /// The scalar is a nonzero residue of the group order.
    pub open spec fn wf(&self) -> bool {
        well_formed(self@)
    }

    /// The private scalar, most significant byte first.
    pub fn scalar(&self) -> (out: [u8; 32])
        ensures
            out@ == self@.scalar,
    {
        self.scalar
    }

    /// The chain code.
    pub fn chain_code(&self) -> (out: [u8; 32])
        ensures
            out@ == self@.chain_code,
    {
        self.chain_code
    }
}

/// Both parts are 32 bytes long and the scalar is a nonzero residue of the
/// group order.
pub open spec fn well_formed(key: KeyState) -> bool {
    &&& key.scalar.len() == 32
    &&& key.chain_code.len() == 32
    &&& 0 < be_value(key.scalar) < curve_order()
}

/// The first index of the hardened range.
pub const HARDENED: u32 = 0x8000_0000;

/// The bytes of the text `Bitcoin seed`, which keys the master MAC.
pub open spec fn master_domain() -> Seq<u8> {
    seq![0x42u8, 0x69, 0x74, 0x63, 0x6f, 0x69, 0x6e, 0x20, 0x73, 0x65, 0x65, 0x64]
}

/// The path 44'/118'/0'/0/0.
pub open spec fn derivation_path() -> Seq<u32> {
    seq![0x8000_002Cu32, 0x8000_0076u32, 0x8000_0000u32, 0u32, 0u32]
}

/// The key that a 64-byte MAC output stands for on its own: its left half as
/// the scalar, its right half as the chain code. There is none where the left
/// half is zero or does not lie below the group order.
pub open spec fn key_of_mac(mac: Seq<u8>) -> Option<KeyState> {
    if mac.len() == 64 && 0 < be_value(mac.subrange(0, 32)) < curve_order() {
        Some(KeyState { scalar: mac.subrange(0, 32), chain_code: mac.subrange(32, 64) })
    } else {
        None
    }
}

/// The master key of a seed.
pub open spec fn master_key_of(seed: Seq<u8>) -> Option<KeyState> {
    match hmac_sha512(master_domain(), seed) {
        Some(mac) => key_of_mac(mac),
        None => None,
    }
}

/// What the child MAC is computed over when the index is hardened: a zero
/// byte, the parent scalar, the index.
pub open spec fn hardened_message(scalar: Seq<u8>, index: u32) -> Seq<u8> {
    seq![0u8] + scalar + be_encode(index as nat, 4)
}

/// What the child MAC is computed over when the index is not hardened: the
/// parent's compressed public key, the index.
pub open spec fn public_message(public_key: Seq<u8>, index: u32) -> Seq<u8> {
    public_key + be_encode(index as nat, 4)
}

/// What the child MAC of `parent` at `index` is computed over.
pub open spec fn child_message_of(parent: KeyState, index: u32) -> Option<Seq<u8>> {
    if index >= HARDENED {
        Some(hardened_message(parent.scalar, index))
    } else {
        match compressed_public_key(parent.scalar) {
            Some(public_key) => Some(public_message(public_key, index)),
            None => None,
        }
    }
}

/// The sum of the parent's scalar and the left half of a child MAC, modulo
/// the group order.
pub open spec fn child_scalar_value(parent: KeyState, mac: Seq<u8>) -> nat {
    (be_value(parent.scalar) + be_value(mac.subrange(0, 32))) % curve_order()
}

/// The child that a parent key and a 64-byte MAC output give: the scalar is
/// the sum of the parent's and the MAC's left half modulo the group order, the
/// chain code is the MAC's right half. There is none where the left half does
/// not lie below the group order, or where the sum is zero.
pub open spec fn combine(parent: KeyState, mac: Seq<u8>) -> Option<KeyState> {
    if mac.len() == 64 && be_value(mac.subrange(0, 32)) < curve_order() && child_scalar_value(
        parent,
        mac,
    ) != 0 {
        Some(
            KeyState {
                scalar: be_encode(child_scalar_value(parent, mac), 32),
                chain_code: mac.subrange(32, 64),
            },
        )
    } else {
        None
    }
}

/// The child of `parent` at `index`.
pub open spec fn child_key_of(parent: KeyState, index: u32) -> Option<KeyState> {
    match child_message_of(parent, index) {
        Some(message) => match hmac_sha512(parent.chain_code, message) {
            Some(mac) => combine(parent, mac),
            None => None,
        },
        None => None,
    }
}

/// The descendant of `key` along `path`.
pub open spec fn descend(key: KeyState, path: Seq<u32>) -> Option<KeyState>
    decreases path.len(),
{
    if path.len() == 0 {
        Some(key)
    } else {
        match child_key_of(key, path[0]) {
            Some(child) => descend(child, path.skip(1)),
            None => None,
        }
    }
}

/// The group order is below 256 to the power 32: a reduced scalar fits in 32
/// bytes.
pub proof fn lemma_order_fits()
    ensures
        curve_order() < radix_power(32),
{
    reveal_with_fuel(radix_power, 33);
}

/// A child's scalar denotes the sum of the parent's scalar and the left half
/// of the child MAC, modulo the group order: the parent's scalar is added to,
/// not replaced. The child is well formed.
pub proof fn lemma_child_scalar_is_sum(parent: KeyState, mac: Seq<u8>)
    ensures
        combine(parent, mac) matches Some(child) ==> {
            &&& be_value(child.scalar) == (be_value(parent.scalar) + be_value(
                mac.subrange(0, 32),
            )) % curve_order()
            &&& child.chain_code == mac.subrange(32, 64)
            &&& well_formed(child)
        },
{
    if combine(parent, mac) is Some {
        let value = child_scalar_value(parent, mac);
        lemma_order_fits();
        lemma_encode_len(value, 32);
        lemma_value_of_encode(value, 32);
        vstd::arithmetic::div_mod::lemma_small_mod(value, radix_power(32));
    }
}

/// The child of any parent is well formed.
pub proof fn lemma_child_well_formed(parent: KeyState, index: u32)
    ensures
        child_key_of(parent, index) matches Some(child) ==> well_formed(child),
{
    if child_key_of(parent, index) is Some {
        let message = child_message_of(parent, index)->0;
        let mac = hmac_sha512(parent.chain_code, message)->0;
        lemma_child_scalar_is_sum(parent, mac);
    }
}

/// The scalar stays a nonzero residue of the group order all the way down a
/// path: every descendant of a well-formed key is well formed.
pub proof fn lemma_descend_well_formed(key: KeyState, path: Seq<u32>)
    requires
        well_formed(key),
    ensures
        descend(key, path) matches Some(last) ==> well_formed(last),
    decreases path.len(),
{
    if path.len() > 0 {
        if let Some(child) = child_key_of(key, path[0]) {
            lemma_child_well_formed(key, path[0]);
            lemma_descend_well_formed(child, path.skip(1));
        }
    }
}

/// The key that a seed derives to is well formed.
pub proof fn lemma_account_key_well_formed(seed: Seq<u8>)
    ensures
        account_key_of(seed) matches Some(key) ==> well_formed(key),
{
    if let Some(master) = master_key_of(seed) {
        lemma_descend_well_formed(master, derivation_path());
    }
}

/// The key at the end of the fixed path below the master key of `seed`.
pub open spec fn account_key_of(seed: Seq<u8>) -> Option<KeyState> {
    match master_key_of(seed) {
        Some(master) => descend(master, derivation_path()),
        None => None,
    }
}

/// The 20-byte identifier of a public key: RIPEMD-160 of its SHA-256.
pub open spec fn identifier_of(public_key: Seq<u8>) -> Seq<u8> {
    ripemd160(sha256(public_key))
}

/// The address of a 20-byte identifier.
pub open spec fn address_of_identifier(identifier: Seq<u8>) -> Result<Seq<char>, KeyError> {
    match bech32_text("mantra"@, identifier) {
        Some(text) => Ok(text),
        None => Err(KeyError::Encoding),
    }
}

/// The address of a private scalar.
pub open spec fn address_of_scalar(scalar: Seq<u8>) -> Result<Seq<char>, KeyError> {
    match compressed_public_key(scalar) {
        Some(public_key) => address_of_identifier(identifier_of(public_key)),
        None => Err(KeyError::KeyDerivation),
    }
}

/// The address of a seed.
pub open spec fn address_of_seed(seed: Seq<u8>) -> Result<Seq<char>, KeyError> {
    match account_key_of(seed) {
        Some(key) => address_of_scalar(key.scalar),
        None => Err(KeyError::KeyDerivation),
    }
}

/// The address of a recovery phrase.
pub open spec fn address_of_phrase(phrase: Seq<char>) -> Result<Seq<char>, KeyError> {
    match mnemonic_seed(phrase) {
        Ok(seed) => address_of_seed(seed),
        Err(_) => Err(KeyError::MnemonicParse),
    }
}

/// A function's outcome agrees with what the model gives.
pub open spec fn address_agrees(res: Result<String, KeyError>, model: Result<Seq<char>, KeyError>) -> bool {
    match res {
        Ok(address) => model == Ok::<Seq<char>, KeyError>(address@),
        Err(e) => model == Err::<Seq<char>, KeyError>(e),
    }
}

/// A function's outcome agrees with the key that the model gives, if any.
pub open spec fn key_agrees(res: Result<ExtendedKey, KeyError>, model: Option<KeyState>) -> bool {
    match res {
        Ok(key) => model == Some(key@) && key.wf(),
        Err(e) => model is None && e == KeyError::KeyDerivation,
    }
}

/// Whether a path index is hardened.
pub fn is_hardened(index: u32) -> (hardened: bool)
    ensures
        hardened == (index >= HARDENED),
{
    index >= HARDENED
}

/// Copies the 32 bytes of `mac` that start at `start`.
fn half(mac: &[u8; 64], start: usize) -> (out: [u8; 32])
    requires
        start <= 32,
    ensures
        out@ == mac@.subrange(start as int, start + 32),
{
    let mut out: [u8; 32] = [0u8; 32];
    let mut i: usize = 0;
    while i < 32
        invariant
            start <= 32,
            i <= 32,
            forall|j: int| 0 <= j < i ==> out@[j] == mac@[start + j],
        decreases 32 - i,
    {
        out[i] = mac[start + i];
        i += 1;
    }
    assert(out@ =~= mac@.subrange(start as int, start + 32));
    out
}

/// The left and the right half of a MAC output.
pub fn mac_halves(mac: &[u8; 64]) -> (halves: ([u8; 32], [u8; 32]))
    ensures
        halves.0@ == mac@.subrange(0, 32),
        halves.1@ == mac@.subrange(32, 64),
{
    (half(mac, 0), half(mac, 32))
}

/// Reads a MAC output as a key: left half the scalar, right half the chain
/// code. Fails where the left half is zero or no residue of the group order.
pub fn split_mac(mac: &[u8; 64]) -> (res: Result<ExtendedKey, KeyError>)
    ensures
        key_agrees(res, key_of_mac(mac@)),
{
    let (scalar, chain_code) = mac_halves(mac);
    if scalar_is_canonical(&scalar) && !is_zero(&scalar) {
        Ok(ExtendedKey { scalar, chain_code })
    } else {
        Err(KeyError::KeyDerivation)
    }
}

/// The master key of a seed: the MAC of the seed under the key
/// `Bitcoin seed`, split in two.
pub fn master_key(seed: &[u8]) -> (res: Result<ExtendedKey, KeyError>)
    ensures
        key_agrees(res, master_key_of(seed@)),
{
    let domain: Vec<u8> = vec![0x42u8, 0x69, 0x74, 0x63, 0x6f, 0x69, 0x6e, 0x20, 0x73, 0x65, 0x65, 0x64];
    assert(domain@ =~= master_domain());
    match hmac_sha512_bytes(domain.as_slice(), seed) {
        Ok(mac) => split_mac(&mac),
        Err(_) => Err(KeyError::KeyDerivation),
    }
}

/// The MAC input of a hardened step.
pub fn hardened_child_message(scalar: &[u8; 32], index: u32) -> (out: Vec<u8>)
    ensures
        out@ == hardened_message(scalar@, index),
{
    let mut out: Vec<u8> = Vec::new();
    out.push(0u8);
    out.extend_from_slice(scalar.as_slice());
    let tail = index_bytes(index);
    out.extend_from_slice(tail.as_slice());
    assert(out@ =~= hardened_message(scalar@, index));
    out
}

/// The MAC input of a step that is not hardened.
pub fn public_child_message(public_key: &[u8], index: u32) -> (out: Vec<u8>)
    ensures
        out@ == public_message(public_key@, index),
{
    let mut out: Vec<u8> = Vec::new();
    out.extend_from_slice(public_key);
    let tail = index_bytes(index);
    out.extend_from_slice(tail.as_slice());
    assert(out@ =~= public_message(public_key@, index));
    out
}

/// Adds the left half of a child MAC to the parent's scalar, modulo the group
/// order, and takes the right half as the new chain code. Fails where the left
/// half is no residue of the group order, or where the sum is zero.
pub fn combine_with_mac(parent: &ExtendedKey, mac: &[u8; 64]) -> (res: Result<ExtendedKey, KeyError>)
    requires
        parent.wf(),
    ensures
        key_agrees(res, combine(parent@, mac@)),
{
    let (tweak, chain_code) = mac_halves(mac);
    if !scalar_is_canonical(&tweak) {
        return Err(KeyError::KeyDerivation);
    }
    let scalar = scalar_add(&parent.scalar, &tweak);
    proof {
        lemma_encode_of_value(scalar@);
    }
    if is_zero(&scalar) {
        return Err(KeyError::KeyDerivation);
    }
    Ok(ExtendedKey { scalar, chain_code })
}

/// One step down the tree.
pub fn child_key(parent: &ExtendedKey, index: u32) -> (res: Result<ExtendedKey, KeyError>)
    requires
        parent.wf(),
    ensures
        key_agrees(res, child_key_of(parent@, index)),
{
    let message = if is_hardened(index) {
        hardened_child_message(&parent.scalar, index)
    } else {
        match public_key_bytes(&parent.scalar) {
            Ok(public_key) => public_child_message(public_key.as_slice(), index),
            Err(_) => {
                return Err(KeyError::KeyDerivation);
            },
        }
    };
    match hmac_sha512_bytes(parent.chain_code.as_slice(), message.as_slice()) {
        Ok(mac) => combine_with_mac(parent, &mac),
        Err(_) => Err(KeyError::KeyDerivation),
    }
}

/// The key at the end of the fixed path below the master key of a seed.
pub fn account_key(seed: &[u8]) -> (res: Result<ExtendedKey, KeyError>)
    ensures
        key_agrees(res, account_key_of(seed@)),
{
    let path: [u32; 5] = [0x8000_002Cu32, 0x8000_0076u32, 0x8000_0000u32, 0u32, 0u32];
    assert(path@ =~= derivation_path());
    let mut current = match master_key(seed) {
        Ok(master) => master,
        Err(e) => {
            return Err(e);
        },
    };
    let mut i: usize = 0;
    assert(path@.skip(0) =~= path@);
    while i < 5
        invariant
            i <= 5,
            path@ == derivation_path(),
            current.wf(),
            account_key_of(seed@) == descend(current@, path@.skip(i as int)),
        decreases 5 - i,
    {
        let next = child_key(&current, path[i]);
        proof {
            assert(path@.skip(i as int)[0] == path@[i as int]);
            assert(path@.skip(i as int).skip(1) =~= path@.skip(i + 1));
        }
        match next {
            Ok(child) => {
                current = child;
            },
            Err(e) => {
                return Err(e);
            },
        }
        i += 1;
    }
    Ok(current)
}

/// The identifier of a compressed public key.
pub fn identifier(public_key: &[u8]) -> (out: [u8; 20])
    ensures
        out@ == identifier_of(public_key@),
{
    let digest = sha256_digest(public_key);
    ripemd160_digest(digest.as_slice())
}

/// Encodes a 20-byte identifier under the network prefix `mantra`.
pub fn encode_address(identifier: &[u8; 20]) -> (res: Result<String, KeyError>)
    ensures
        address_agrees(res, address_of_identifier(identifier@)),
{
    match bech32_encode("mantra", identifier.as_slice()) {
        Ok(text) => Ok(text),
        Err(_) => Err(KeyError::Encoding),
    }
}

/// The address of a private scalar.
pub fn address_from_scalar(scalar: &[u8; 32]) -> (res: Result<String, KeyError>)
    ensures
        address_agrees(res, address_of_scalar(scalar@)),
{
    match public_key_bytes(scalar) {
        Ok(public_key) => {
            let id = identifier(public_key.as_slice());
            encode_address(&id)
        },
        Err(_) => Err(KeyError::KeyDerivation),
    }
}

/// The address of a seed.
pub fn address_from_seed(seed: &[u8]) -> (res: Result<String, KeyError>)
    ensures
        address_agrees(res, address_of_seed(seed@)),
{
    match account_key(seed) {
        Ok(key) => address_from_scalar(&key.scalar),
        Err(e) => Err(e),
    }
}

/// The address of a recovery phrase.
pub fn derive_address(phrase: &str) -> (res: Result<String, KeyError>)
    ensures
        address_agrees(res, address_of_phrase(phrase@)),
{
    match seed_from_phrase(phrase) {
        Ok(seed) => address_from_seed(seed.as_slice()),
        Err(_) => Err(KeyError::MnemonicParse),
    }
}

/// What is said of an error in words.
pub open spec fn error_text(e: KeyError) -> Seq<char> {
    match e {
        KeyError::EntropySource => "the random source is unavailable"@,
        KeyError::MnemonicParse => "the text is no recovery phrase"@,
        KeyError::KeyDerivation => "a key derivation step was invalid"@,
        KeyError::Encoding => "the address could not be encoded"@,
    }
}

/// What a failed derivation reports in place of an address.
pub open spec fn derivation_failure_text(e: KeyError) -> Seq<char> {
    "Error deriving address: "@ + error_text(e)
}

/// The text that `derive_address_from_mnemonic` owes for a phrase: the address;
/// for a text that is no recovery phrase, the words `Invalid mnemonic: ` and
/// the parser's reason; for a phrase whose derivation fails, the words
/// `Error deriving address: ` and the error.
pub open spec fn report_of_phrase(phrase: Seq<char>) -> Seq<char> {
    match mnemonic_seed(phrase) {
        Ok(seed) => match address_of_seed(seed) {
            Ok(address) => address,
            Err(e) => derivation_failure_text(e),
        },
        Err(reason) => "Invalid mnemonic: "@ + reason,
    }
}

impl KeyError {
    /// The error in words.
    pub fn message(&self) -> (text: String)
        ensures
            text@ == error_text(*self),
    {
        match self {
            KeyError::EntropySource => String::from_str("the random source is unavailable"),
            KeyError::MnemonicParse => String::from_str("the text is no recovery phrase"),
            KeyError::KeyDerivation => String::from_str("a key derivation step was invalid"),
            KeyError::Encoding => String::from_str("the address could not be encoded"),
        }
    }
}

/// The report of a derivation from a seed: the address, or the words
/// `Error deriving address: ` and the error.
pub fn report_from_seed(seed: &[u8]) -> (out: String)
    ensures
        match address_of_seed(seed@) {
            Ok(address) => out@ == address,
            Err(e) => out@ == derivation_failure_text(e),
        },
{
    match address_from_seed(seed) {
        Ok(address) => address,
        Err(e) => {
            let detail = e.message();
            String::from_str("Error deriving address: ").concat(detail.as_str())
        },
    }
}

/// Derives the address of a recovery phrase given as text. Always returns a
/// text: the address, or a report of what went wrong.
pub fn derive_address_from_mnemonic(mnemonic_str: &str) -> (out: String)
    ensures
        out@ == report_of_phrase(mnemonic_str@),
{
    match seed_from_phrase(mnemonic_str) {
        Ok(seed) => report_from_seed(seed.as_slice()),
        Err(reason) => String::from_str("Invalid mnemonic: ").concat(reason.as_str()),
    }
}

/// The address of a seed whose path can be walked, whose last scalar has a
/// public key and whose identifier the encoder accepts: the bech32 text,
/// under `mantra`, of RIPEMD-160 of SHA-256 of the compressed public key of
/// the key at the end of the path.
pub proof fn lemma_address_formula(
    seed: Seq<u8>,
    key: KeyState,
    public_key: Seq<u8>,
    text: Seq<char>,
)
    requires
        account_key_of(seed) == Some(key),
        compressed_public_key(key.scalar) == Some(public_key),
        bech32_text("mantra"@, ripemd160(sha256(public_key))) == Some(text),
    ensures
        address_of_seed(seed) == Ok::<Seq<char>, KeyError>(text),
        forall|phrase: Seq<char>|
            mnemonic_seed(phrase) == Ok::<Seq<u8>, Seq<char>>(seed) ==> #[trigger] address_of_phrase(
                phrase,
            ) == Ok::<Seq<char>, KeyError>(text),
{
}

/// One hardened step, written out: the MAC, keyed by the parent's chain
/// code, of a zero byte, the parent's scalar and the index; its left half,
/// where it lies below the group order, added to the parent's scalar modulo
/// the order; its right half as the chain code.
pub proof fn lemma_hardened_step(parent: KeyState, index: u32, mac: Seq<u8>)
    requires
        index >= HARDENED,
        hmac_sha512(parent.chain_code, seq![0u8] + parent.scalar + be_encode(index as nat, 4))
            == Some(mac),
        mac.len() == 64,
        be_value(mac.subrange(0, 32)) < curve_order(),
        (be_value(parent.scalar) + be_value(mac.subrange(0, 32))) % curve_order() != 0,
    ensures
        child_key_of(parent, index) matches Some(child) && be_value(child.scalar) == (be_value(
            parent.scalar,
        ) + be_value(mac.subrange(0, 32))) % curve_order() && child.chain_code == mac.subrange(
            32,
            64,
        ),
{
    lemma_child_scalar_is_sum(parent, mac);
}

/// One step that is not hardened, written out: as the hardened step, but the
/// MAC is computed over the parent's compressed public key and the index.
pub proof fn lemma_public_step(parent: KeyState, index: u32, public_key: Seq<u8>, mac: Seq<u8>)
    requires
        index < HARDENED,
        compressed_public_key(parent.scalar) == Some(public_key),
        hmac_sha512(parent.chain_code, public_key + be_encode(index as nat, 4)) == Some(mac),
        mac.len() == 64,
        be_value(mac.subrange(0, 32)) < curve_order(),
        (be_value(parent.scalar) + be_value(mac.subrange(0, 32))) % curve_order() != 0,
    ensures
        child_key_of(parent, index) matches Some(child) && be_value(child.scalar) == (be_value(
            parent.scalar,
        ) + be_value(mac.subrange(0, 32))) % curve_order() && child.chain_code == mac.subrange(
            32,
            64,
        ),
{
    lemma_child_scalar_is_sum(parent, mac);
}

/// The path, written out: the account key is the child at 0 of the child at
/// 0 of the child at 0' of the child at 118' of the child at 44' of the
/// master key.
pub proof fn lemma_path_steps(
    seed: Seq<u8>,
    master: KeyState,
    purpose: KeyState,
    coin: KeyState,
    account: KeyState,
    change: KeyState,
    address: KeyState,
)
    requires
        master_key_of(seed) == Some(master),
        child_key_of(master, 0x8000_002Cu32) == Some(purpose),
        child_key_of(purpose, 0x8000_0076u32) == Some(coin),
        child_key_of(coin, 0x8000_0000u32) == Some(account),
        child_key_of(account, 0u32) == Some(change),
        child_key_of(change, 0u32) == Some(address),
    ensures
        account_key_of(seed) == Some(address),
{
    let path = derivation_path();
    reveal_with_fuel(descend, 6);
    assert(path.skip(1) =~= seq![0x8000_0076u32, 0x8000_0000u32, 0u32, 0u32]);
    assert(path.skip(1).skip(1) =~= seq![0x8000_0000u32, 0u32, 0u32]);
    assert(path.skip(1).skip(1).skip(1) =~= seq![0u32, 0u32]);
    assert(path.skip(1).skip(1).skip(1).skip(1) =~= seq![0u32]);
    assert(path.skip(1).skip(1).skip(1).skip(1).skip(1) =~= Seq::<u32>::empty());
}

/// A phrase has at most one address: whatever two derivations of one phrase
/// return as an address is the same text.
pub proof fn lemma_derivation_deterministic(
    phrase: Seq<char>,
    first: Result<String, KeyError>,
    second: Result<String, KeyError>,
)
    requires
        address_agrees(first, address_of_phrase(phrase)),
        address_agrees(second, address_of_phrase(phrase)),
    ensures
        first is Ok <==> second is Ok,
        first is Ok ==> first->Ok_0@ == second->Ok_0@,
        first is Err ==> first->Err_0 == second->Err_0,
{
}

} // verus!
