//! Key agreement: private and public keys, their form on the wire, and the
//! secret that both peers derive.

use crate::endian::{
    be_bytes, be_decode, be_encode, be_value, lemma_be_bytes_len, lemma_be_value_of_bytes,
    lemma_radix_values,
};
use crate::modular::{lemma_mod_pow_commutes, lemma_mod_pow_range, mod_pow, mod_pow_spec};
use vstd::prelude::*;

verus! {

/// The prime modulus of the standard parameters.
pub const P: u64 = 0xD87FA3E291B4C7F3;

/// The generator of the standard parameters.
pub const G: u64 = 2;

/// The smallest private key.
pub const PRIVATE_KEY_MIN: u64 = 1000;

/// One more than the largest private key.
pub const PRIVATE_KEY_END: u64 = 100000;

/// Number of bytes that a public key takes on the wire.
pub const PUBLIC_KEY_LEN: usize = 8;

/// Why a handshake did not complete.
#[derive(Debug, Clone, Copy, PartialEq, Eq, Structural)]
pub enum HandshakeError {
    /// The peer's public key did not arrive as exactly eight bytes.
    TruncatedPublicKey,
}

/// Whether `key` lies in the range that private keys are drawn from.
pub open spec fn valid_private_key(key: u64) -> bool {
    PRIVATE_KEY_MIN <= key < PRIVATE_KEY_END
}

/// The modulus and generator that both peers compute with.
#[derive(Debug, Clone, Copy, PartialEq, Eq, Structural)]
pub struct KeyExchangeParameters {
    pub modulus: u64,
    pub generator: u64,
}

impl KeyExchangeParameters {
    /// Parameters are usable when the modulus is above one.
    pub open spec fn wf(&self) -> bool {
        self.modulus > 1
    }

    /// The public key that belongs to `private_key`: the generator raised
    /// to it.
    pub open spec fn public_key_of(&self, private_key: u64) -> u64 {
        mod_pow_spec(self.generator as int, private_key as nat, self.modulus as int) as u64
    }

    /// The secret that the holder of `private_key` shares with the peer
    /// whose public key is `peer_public_key`.
    pub open spec fn shared_secret_of(&self, peer_public_key: u64, private_key: u64) -> u64 {
        mod_pow_spec(peer_public_key as int, private_key as nat, self.modulus as int) as u64
    }

    /// The fixed parameters that every session uses.
    pub fn standard() -> (params: KeyExchangeParameters)
        ensures
            params.modulus == P,
            params.generator == G,
            params.wf(),
    {
        KeyExchangeParameters { modulus: P, generator: G }
    }

    /// Computes the public key for a private key.
    pub fn derive_public_key(&self, private_key: u64) -> (public_key: u64)
        requires
            self.wf(),
        ensures
            public_key == self.public_key_of(private_key),
            public_key < self.modulus,
    {
        mod_pow(self.generator as u128, private_key as u128, self.modulus as u128)
    }

    /// Computes the shared secret from the peer's public key and the own
    /// private key.
    pub fn derive_shared_secret(&self, peer_public_key: u64, private_key: u64) -> (secret: u64)
        requires
            self.wf(),
        ensures
            secret == self.shared_secret_of(peer_public_key, private_key),
            secret < self.modulus,
    {
        mod_pow(peer_public_key as u128, private_key as u128, self.modulus as u128)
    }
}

/// Both peers arrive at the same secret: what one derives from the other's
/// public key and its own private key is what the other derives the other
/// way round.
pub proof fn lemma_shared_secret_agrees(params: KeyExchangeParameters, a: u64, b: u64)
    requires
        params.wf(),
    ensures
        params.shared_secret_of(params.public_key_of(a), b) == params.shared_secret_of(
            params.public_key_of(b),
            a,
        ),
{
    let g = params.generator as int;
    let m = params.modulus as int;
    lemma_mod_pow_range(g, a as nat, m);
    lemma_mod_pow_range(g, b as nat, m);
    lemma_mod_pow_commutes(g, a as nat, b as nat, m);
}

/// Calls `rand::rng` for the generator of the current thread and then
/// `Rng::random_range` on the half-open range from `low` to `high`, which
/// returns a value inside that range and panics on an empty one.
#[verifier::external_body]
fn random_in_range(low: u64, high: u64) -> (value: u64)
    requires
        low < high,
    ensures
        low <= value < high,
{
    rand::Rng::random_range(&mut rand::rng(), low..high)
}

/// Draws a fresh private key.
pub fn generate_private_key() -> (key: u64)
    ensures
        valid_private_key(key),
{
    random_in_range(PRIVATE_KEY_MIN, PRIVATE_KEY_END)
}

/// A public key as it travels: eight bytes, most significant first.
pub open spec fn public_key_bytes(key: u64) -> Seq<u8> {
    be_bytes(key as nat, PUBLIC_KEY_LEN as nat)
}

/// A public key that was written is read back unchanged.
pub proof fn lemma_public_key_round_trip(key: u64)
    ensures
        public_key_bytes(key).len() == PUBLIC_KEY_LEN,
        be_value(public_key_bytes(key)) == key,
{
    lemma_radix_values();
    lemma_be_bytes_len(key as nat, PUBLIC_KEY_LEN as nat);
    lemma_be_value_of_bytes(key as nat, PUBLIC_KEY_LEN as nat);
}

/// Writes a public key for the wire.
pub fn encode_public_key(key: u64) -> (bytes: Vec<u8>)
    ensures
        bytes@ == public_key_bytes(key),
        bytes@.len() == PUBLIC_KEY_LEN,
{
    proof {
        lemma_be_bytes_len(key as nat, PUBLIC_KEY_LEN as nat);
    }
    be_encode(key, PUBLIC_KEY_LEN)
}

/// Reads the peer's public key. Anything but exactly eight bytes means that
/// the handshake was cut short.
pub fn decode_public_key(bytes: &[u8]) -> (result: Result<u64, HandshakeError>)
    ensures
        match result {
            Ok(key) => bytes@.len() == PUBLIC_KEY_LEN && key == be_value(bytes@),
            Err(error) => bytes@.len() != PUBLIC_KEY_LEN && error
                == HandshakeError::TruncatedPublicKey,
        },
{
    if bytes.len() != PUBLIC_KEY_LEN {
        return Err(HandshakeError::TruncatedPublicKey);
    }
    Ok(be_decode(bytes))
}

} // verus!
