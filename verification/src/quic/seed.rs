//! The server's secret for the connection ids it hands out in retry
//! packets: an HMAC-SHA256 key drawn at random, and the id derived from a
//! client's destination connection id under it.
use vstd::prelude::*;

use ring::hmac::Key;
use ring::rand::SystemRandom;

use super::token::MAX_CONN_ID_LEN;

verus! {

#[verifier::external_type_specification]
#[verifier::external_body]
pub struct ExHmacKey(ring::hmac::Key);

#[verifier::external_type_specification]
#[verifier::external_body]
pub struct ExUnspecified(ring::error::Unspecified);

#[verifier::external_type_specification]
#[verifier::external_body]
pub struct ExSystemRandom(ring::rand::SystemRandom);

/// `ring::rand::SystemRandom::new`: the operating system's random source.
#[verifier::external_body]
fn system_random() -> SystemRandom {
    SystemRandom::new()
}

/// `ring::hmac::Key::generate` for HMAC-SHA256, drawing the key from `rng`.
/// The key is random and opaque, and whether the random source fails is not
/// known here: nothing is stated.
#[verifier::external_body]
fn generate_hmac_key(rng: &SystemRandom) -> Result<Key, ring::error::Unspecified> {
    Key::generate(ring::hmac::HMAC_SHA256, rng)
}

/// The tag that HMAC under `key` gives for `data`: a function of the key and
/// the bytes alone.
pub uninterp spec fn hmac_tag(key: Key, data: Seq<u8>) -> Seq<u8>;

/// `ring::hmac::sign`: the HMAC tag of `data` under `key`, as bytes. It is
/// as long as the digest of the key's algorithm (SHA-1, SHA-256, SHA-384 or
/// SHA-512), so at least 20 bytes. The digest refuses (panics on) more than
/// 2^64 bits of input for SHA-1 and SHA-256, key block included.
#[verifier::external_body]
fn hmac_sign(key: &Key, data: &[u8]) -> (tag: Vec<u8>)
    requires
        data@.len() + 64 < 0x2000_0000_0000_0000,
    ensures
        tag@ == hmac_tag(*key, data@),
        tag@.len() >= 20,
{
    ring::hmac::sign(key, data).as_ref().to_vec()
}

/// Why the connection-id secret could not be made.
#[derive(Debug, Clone, Copy, PartialEq, Eq, Structural)]
pub enum SeedError {
    /// The random source failed.
    Random,
}

/// The connection id handed out in a retry packet: the first
/// `MAX_CONN_ID_LEN` bytes of the HMAC tag of the client's destination id.
pub fn scid_from_tag(tag: &[u8]) -> (scid: Vec<u8>)
    requires
        tag@.len() >= MAX_CONN_ID_LEN,
    ensures
        scid@ == tag@.take(MAX_CONN_ID_LEN as int),
{
    let mut scid: Vec<u8> = Vec::new();
    let mut i: usize = 0;
    while i < MAX_CONN_ID_LEN
        invariant
            i <= MAX_CONN_ID_LEN,
            tag@.len() >= MAX_CONN_ID_LEN,
            scid@ == tag@.take(i as int),
        decreases MAX_CONN_ID_LEN - i,
    {
        scid.push(tag[i]);
        i = i + 1;
        assert(scid@ =~= tag@.take(i as int));
    }
    scid
}

/// The secret from which the server derives connection ids.
pub struct ConnIdSeed {
    key: Key,
}

impl ConnIdSeed {
    /// The HMAC key of the secret.
    pub closed spec fn spec_key(&self) -> Key {
        self.key
    }

    /// Draws a new secret; fails when the random source does.
    pub fn generate() -> (r: Result<ConnIdSeed, SeedError>) {
        let rng = system_random();
        Self::from_generated(generate_hmac_key(&rng))
    }

    /// The secret made from what drawing a key gave: the key, or the error
    /// of a failed random source.
    pub fn from_generated(key: Result<Key, ring::error::Unspecified>) -> (r: Result<
        ConnIdSeed,
        SeedError,
    >)
        ensures
            r is Ok <==> key is Ok,
            key is Err ==> r == Err::<ConnIdSeed, SeedError>(SeedError::Random),
            r matches Ok(seed) ==> key == Ok::<Key, ring::error::Unspecified>(seed.spec_key()),
    {
        match key {
            Ok(key) => Ok(ConnIdSeed { key }),
            Err(_) => Err(SeedError::Random),
        }
    }

    /// The connection id handed out when answering the client whose
    /// destination connection id is `dcid` with a retry packet.
    pub fn retry_scid(&self, dcid: &[u8]) -> (scid: Vec<u8>)
        requires
            dcid@.len() + 64 < 0x2000_0000_0000_0000,
        ensures
            scid@.len() == MAX_CONN_ID_LEN,
            scid@ == hmac_tag(self.spec_key(), dcid@).take(MAX_CONN_ID_LEN as int),
    {
        let tag = hmac_sign(&self.key, dcid);
        scid_from_tag(tag.as_slice())
    }
}

} // verus!
