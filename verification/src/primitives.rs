//! The cryptographic and textual primitives that the derivation rests on.
//!
//! Every function here hands its arguments to a library that is not verified
//! with this crate. What is claimed of each is written in its contract and
//! repeated in words above it.

use vstd::prelude::*;
use crate::encoding::be_value;

verus! {

/// `bip39::Error`: why an entropy has no recovery phrase. Opaque here.
#[verifier::external_type_specification]
#[verifier::external_body]
pub struct ExMnemonicError(bip39::Error);

/// `digest::InvalidLength`, as the `hmac` crate hands it on: a MAC key of a
/// length that is not accepted. Opaque here.
#[verifier::external_type_specification]
#[verifier::external_body]
pub struct ExMacKeyError(hmac::digest::InvalidLength);

/// `k256::ecdsa::Error`: bytes that are no signing key. Opaque here.
#[verifier::external_type_specification]
#[verifier::external_body]
pub struct ExSigningKeyError(k256::ecdsa::Error);

/// `bech32::Error`: why an input could not be encoded. Opaque here.
#[verifier::external_type_specification]
#[verifier::external_body]
pub struct ExBech32Error(bech32::Error);

/// `rand::Error`: the random source gave no bytes. Opaque here.
#[verifier::external_type_specification]
#[verifier::external_body]
pub struct ExEntropyError(rand::Error);

/// Two to the power 64.
pub open spec fn limb() -> nat {
    0x1_0000_0000_0000_0000
}

/// The order of the secp256k1 group, written in four 64-bit limbs.
pub open spec fn curve_order() -> nat {
    ((0xFFFF_FFFF_FFFF_FFFF * limb() + 0xFFFF_FFFF_FFFF_FFFE) * limb() + 0xBAAE_DCE6_AF48_A03B)
        * limb() + 0xBFD2_5E8C_D036_4141
}

/// The 64-byte seed of a recovery phrase under the empty passphrase, where the
/// text parses against the word list and its checksum holds; else the
/// parser's reason for refusing the text, in words.
pub uninterp spec fn mnemonic_seed(phrase: Seq<char>) -> Result<Seq<u8>, Seq<char>>;

/// The recovery phrase that encodes the given entropy.
pub uninterp spec fn entropy_phrase(entropy: Seq<u8>) -> Option<Seq<char>>;

/// HMAC-SHA512 of `message` under `key`.
pub uninterp spec fn hmac_sha512(key: Seq<u8>, message: Seq<u8>) -> Option<Seq<u8>>;

/// The compressed SEC1 encoding of the secp256k1 public key of a private
/// scalar given as 32 big-endian bytes.
pub uninterp spec fn compressed_public_key(scalar: Seq<u8>) -> Option<Seq<u8>>;

/// SHA-256 of `data`.
pub uninterp spec fn sha256(data: Seq<u8>) -> Seq<u8>;

/// RIPEMD-160 of `data`.
pub uninterp spec fn ripemd160(data: Seq<u8>) -> Seq<u8>;

/// The bech32 string of `payload`, regrouped into 5-bit symbols, under the
/// human-readable part `hrp`.
pub uninterp spec fn bech32_text(hrp: Seq<char>, payload: Seq<u8>) -> Option<Seq<char>>;

/// The lower-case form of a text.
pub uninterp spec fn lowercase(text: Seq<char>) -> Seq<char>;

/// Every character of the text is an ASCII character.
pub open spec fn is_ascii_text(text: Seq<char>) -> bool {
    forall|i: int| 0 <= i < text.len() ==> (#[trigger] text[i] as u32) < 128
}

/// An ASCII capital as its small letter; any other character as it is.
pub open spec fn ascii_lower_char(c: char) -> char {
    if 65 <= c as u32 <= 90 {
        ((c as u32 + 32) as u8) as char
    } else {
        c
    }
}

/// The text with each ASCII capital replaced by its small letter.
pub open spec fn ascii_lowercase(text: Seq<char>) -> Seq<char> {
    Seq::new(text.len(), |i: int| ascii_lower_char(text[i]))
}

/// Calls `bip39::Mnemonic::parse`. On the parsed phrase it calls
/// `bip39::Mnemonic::to_seed` with the empty passphrase; a `bip39::Error` it
/// renders through its `Display` impl. Claimed: whether the text parses, the
/// seed and the reason depend on the text alone.
#[verifier::external_body]
pub(crate) fn seed_from_phrase(phrase: &str) -> (res: Result<[u8; 64], String>)
    ensures
        match res {
            Ok(seed) => mnemonic_seed(phrase@) == Ok::<Seq<u8>, Seq<char>>(seed@),
            Err(reason) => mnemonic_seed(phrase@) == Err::<Seq<u8>, Seq<char>>(reason@),
        },
{
    match bip39::Mnemonic::parse(phrase) {
        Ok(mnemonic) => Ok(mnemonic.to_seed("")),
        Err(e) => Err(e.to_string()),
    }
}

/// Calls `bip39::Mnemonic::from_entropy` and renders the phrase through its
/// `Display` impl. Claimed: whether the entropy is accepted, and the phrase,
/// depend on the entropy alone.
#[verifier::external_body]
pub(crate) fn phrase_from_entropy(entropy: &[u8; 32]) -> (res: Result<String, bip39::Error>)
    ensures
        match res {
            Ok(phrase) => entropy_phrase(entropy@) == Some(phrase@),
            Err(_) => entropy_phrase(entropy@) is None,
        },
{
    match bip39::Mnemonic::from_entropy(entropy) {
        Ok(mnemonic) => Ok(mnemonic.to_string()),
        Err(e) => Err(e),
    }
}

/// Calls `Hmac::<Sha512>::new_from_slice` of the `hmac` crate with the key,
/// then `chain_update` with the message and `finalize`. Claimed: whether the
/// key is accepted, and the 64 bytes, depend on key and message alone.
#[verifier::external_body]
pub(crate) fn hmac_sha512_bytes(key: &[u8], message: &[u8]) -> (res: Result<
    [u8; 64],
    hmac::digest::InvalidLength,
>)
    ensures
        match res {
            Ok(mac) => hmac_sha512(key@, message@) == Some(mac@),
            Err(_) => hmac_sha512(key@, message@) is None,
        },
{
    match <hmac::Hmac<sha2::Sha512> as hmac::Mac>::new_from_slice(key) {
        Ok(mac) => Ok(hmac::Mac::finalize(hmac::Mac::chain_update(mac, message)).into_bytes().into()),
        Err(e) => Err(e),
    }
}

/// Calls `k256::Scalar::from_repr`. Claimed, as its source shows: the bytes
/// are accepted exactly when the big-endian integer they hold is below the
/// group order.
#[verifier::external_body]
pub(crate) fn scalar_is_canonical(bytes: &[u8; 32]) -> (ok: bool)
    ensures
        ok == (be_value(bytes@) < curve_order()),
{
    let parsed = <k256::Scalar as k256::elliptic_curve::PrimeField>::from_repr((*bytes).into());
    parsed.is_some().into()
}

/// Calls `k256::Scalar::add` on two scalars read with `from_repr`, and
/// `to_bytes` on the sum. Claimed, as its source shows: the result holds the
/// sum of the two integers modulo the group order, big-endian.
#[verifier::external_body]
pub(crate) fn scalar_add(a: &[u8; 32], b: &[u8; 32]) -> (sum: [u8; 32])
    requires
        be_value(a@) < curve_order(),
        be_value(b@) < curve_order(),
    ensures
        be_value(sum@) == (be_value(a@) + be_value(b@)) % curve_order(),
{
    let x = <k256::Scalar as k256::elliptic_curve::PrimeField>::from_repr((*a).into()).unwrap();
    let y = <k256::Scalar as k256::elliptic_curve::PrimeField>::from_repr((*b).into()).unwrap();
    x.add(&y).to_bytes().into()
}

/// Calls `k256::ecdsa::SigningKey::from_bytes`, then `verifying_key` and
/// `to_encoded_point(true)` on the key. Claimed: whether the scalar is
/// accepted, and the encoded point, depend on the scalar alone.
#[verifier::external_body]
pub(crate) fn public_key_bytes(scalar: &[u8; 32]) -> (res: Result<Vec<u8>, k256::ecdsa::Error>)
    ensures
        match res {
            Ok(key) => compressed_public_key(scalar@) == Some(key@),
            Err(_) => compressed_public_key(scalar@) is None,
        },
{
    match k256::ecdsa::SigningKey::from_bytes(&(*scalar).into()) {
        Ok(key) => Ok(key.verifying_key().to_encoded_point(true).as_bytes().to_vec()),
        Err(e) => Err(e),
    }
}

/// Calls `Sha256::digest` of the `sha2` crate.
#[verifier::external_body]
pub(crate) fn sha256_digest(data: &[u8]) -> (out: [u8; 32])
    ensures
        out@ == sha256(data@),
{
    <sha2::Sha256 as sha2::Digest>::digest(data).into()
}

/// Calls `Ripemd160::digest` of the `ripemd` crate.
#[verifier::external_body]
pub(crate) fn ripemd160_digest(data: &[u8]) -> (out: [u8; 20])
    ensures
        out@ == ripemd160(data@),
{
    <ripemd::Ripemd160 as ripemd::Digest>::digest(data).into()
}

/// Calls `bech32::encode` in the `Bech32` variant on the payload regrouped by
/// `ToBase32::to_base32`. Claimed: the outcome depends on the human-readable
/// part and the payload alone.
#[verifier::external_body]
pub(crate) fn bech32_encode(hrp: &str, payload: &[u8]) -> (res: Result<String, bech32::Error>)
    ensures
        match res {
            Ok(text) => bech32_text(hrp@, payload@) == Some(text@),
            Err(_) => bech32_text(hrp@, payload@) is None,
        },
{
    bech32::encode(hrp, bech32::ToBase32::to_base32(&payload), bech32::Variant::Bech32)
}

/// Calls `str::to_lowercase`. Claimed: the result depends on the text alone;
/// and of a text of ASCII characters, that it has the same length, with each
/// capital replaced by its small letter and every other character kept.
#[verifier::external_body]
pub(crate) fn lowercase_text(text: &str) -> (out: String)
    ensures
        out@ == lowercase(text@),
        is_ascii_text(text@) ==> out@ == ascii_lowercase(text@),
{
    text.to_lowercase()
}

/// Calls `try_fill_bytes` on `rand::rngs::OsRng` for 32 bytes. Nothing is
/// claimed of the bytes.
#[verifier::external_body]
pub(crate) fn os_entropy() -> (res: Result<[u8; 32], rand::Error>)
{
    let mut entropy = [0u8; 32];
    match rand::RngCore::try_fill_bytes(&mut rand::rngs::OsRng, &mut entropy) {
        Ok(()) => Ok(entropy),
        Err(e) => Err(e),
    }
}

} // verus!
