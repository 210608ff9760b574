//! Principals: the identities under which grants are stored and found again.

use vstd::prelude::*;
use casper_types::AsymmetricType;
use crate::token::addr_eq;

verus! {

/// The signature scheme a public key belongs to.
#[derive(Clone, Copy, Debug, PartialEq, Eq, Structural)]
pub enum KeyAlgorithm {
    System,
    Ed25519,
    Secp256k1,
}

/// A public credential as plain values: its scheme and its encoded bytes.
#[derive(Clone, Debug)]
pub struct PublicKeyBytes {
    pub algorithm: KeyAlgorithm,
    pub bytes: Vec<u8>,
}

/// An identity: the 32-byte account hash derived from a public credential.
#[derive(Clone, Copy, Debug)]
pub struct Principal {
    pub hash: [u8; 32],
}

impl View for Principal {
    type V = Seq<u8>;

    open spec fn view(&self) -> Seq<u8> {
        self.hash@
    }
}

/// The account hash that belongs to a public key of the given scheme, or
/// `None` where the bytes are no key of that scheme.
pub uninterp spec fn account_hash_digest(algorithm: KeyAlgorithm, key: Seq<u8>) -> Option<Seq<u8>>;

/// The lower-case hexadecimal digit for a value below sixteen.
pub open spec fn hex_digit(nibble: int) -> char {
    if nibble == 0 { '0' }
    else if nibble == 1 { '1' }
    else if nibble == 2 { '2' }
    else if nibble == 3 { '3' }
    else if nibble == 4 { '4' }
    else if nibble == 5 { '5' }
    else if nibble == 6 { '6' }
    else if nibble == 7 { '7' }
    else if nibble == 8 { '8' }
    else if nibble == 9 { '9' }
    else if nibble == 10 { 'a' }
    else if nibble == 11 { 'b' }
    else if nibble == 12 { 'c' }
    else if nibble == 13 { 'd' }
    else if nibble == 14 { 'e' }
    else { 'f' }
}

/// Lower-case hexadecimal text of a byte string, two digits per byte, the
/// high half first.
pub open spec fn hex_lower(bytes: Seq<u8>) -> Seq<char> {
    Seq::new(
        2 * bytes.len(),
        |i: int| if i % 2 == 0 {
            hex_digit(bytes[i / 2] as int / 16)
        } else {
            hex_digit(bytes[i / 2] as int % 16)
        },
    )
}

/// Calls `casper_types::PublicKey::to_account_hash` on the key that the
/// scheme's `from_bytes` constructor reads from `key.bytes`; the system key
/// has no bytes of its own, and none are read for it. The result is a
/// function of scheme and bytes alone; `None` stands for bytes that the
/// constructor rejects.
#[verifier::external_body]
fn account_hash_of(key: &PublicKeyBytes) -> (hash: Option<[u8; 32]>)
    ensures
        hash matches Some(h) ==> account_hash_digest(key.algorithm, key.bytes@) == Some(h@),
        hash is None ==> account_hash_digest(key.algorithm, key.bytes@) is None,
{
    let parsed = match key.algorithm {
        KeyAlgorithm::System => Ok(casper_types::PublicKey::System),
        KeyAlgorithm::Ed25519 => casper_types::PublicKey::ed25519_from_bytes(&key.bytes),
        KeyAlgorithm::Secp256k1 => casper_types::PublicKey::secp256k1_from_bytes(&key.bytes),
    };
    parsed.ok().map(|k| k.to_account_hash().value())
}

/// Calls `to_string` on the `casper_types::account::AccountHash` of these
/// bytes, which writes them as lower-case hexadecimal text.
#[verifier::external_body]
fn account_hash_text(hash: &[u8; 32]) -> (text: String)
    ensures
        text@ == hex_lower(hash@),
{
    casper_types::account::AccountHash::new(*hash).to_string()
}

impl Principal {
    /// The principal with the given account hash.
    pub fn new(hash: [u8; 32]) -> (p: Principal)
        ensures
            p.hash == hash,
    {
        Principal { hash }
    }

    /// Derives the principal of a public credential. `None` exactly when the
    /// bytes are no key of the stated scheme.
    pub fn from_public_key(key: &PublicKeyBytes) -> (p: Option<Principal>)
        ensures
            p matches Some(q) ==> account_hash_digest(key.algorithm, key.bytes@) == Some(q@),
            p is None <==> account_hash_digest(key.algorithm, key.bytes@) is None,
    {
        match account_hash_of(key) {
            Some(hash) => Some(Principal { hash }),
            None => None,
        }
    }

    /// The name under which this principal's record is kept: its account
    /// hash as 64 lower-case hexadecimal digits.
    pub fn name(&self) -> (text: String)
        ensures
            text@ == hex_lower(self@),
            text@.len() == 64,
    {
        proof {
            vstd::array::array_len_matches_n(&self.hash);
        }
        account_hash_text(&self.hash)
    }
}

/// Two principals are the same identity when their account hashes agree.
impl PartialEq for Principal {
    fn eq(&self, other: &Principal) -> (b: bool) {
        addr_eq(&self.hash, &other.hash)
    }
}

impl Eq for Principal {

}

impl vstd::std_specs::cmp::PartialEqSpecImpl for Principal {
    open spec fn obeys_eq_spec() -> bool {
        true
    }

    open spec fn eq_spec(&self, other: &Principal) -> bool {
        self@ == other@
    }
}

} // verus!
