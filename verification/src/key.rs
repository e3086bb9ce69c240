//! Web-crypto key descriptions: the closed enumerations describing a
//! key's type, algorithm and allowed usages, and the pairing of a public
//! and a private key.

use vstd::prelude::*;

verus! {

/// Whether a key is the public or private half of a pair, or a secret.
#[derive(Clone, Copy, Debug, PartialEq, Eq, Structural)]
pub enum KeyType {
    Public,
    Private,
    Secret,
}

/// A hash function a key can be bound to.
#[derive(Clone, Copy, Debug, PartialEq, Eq, Structural)]
pub enum WebCryptoHash {
    Sha1,
    Sha256,
    Sha384,
    Sha512,
}

/// A named elliptic curve a key can be bound to.
#[derive(Clone, Copy, Debug, PartialEq, Eq, Structural)]
pub enum WebCryptoNamedCurve {
    P256,
    P384,
    P521,
}

/// An operation a key may be used for.
#[derive(Clone, Copy, Debug, PartialEq, Eq, Structural)]
pub enum KeyUsage {
    Encrypt,
    Decrypt,
    Sign,
    Verify,
    DeriveKey,
    DeriveBits,
    WrapKey,
    UnwrapKey,
}

/// The algorithm a key belongs to.
#[derive(Clone, Copy, Debug, PartialEq, Eq, Structural)]
pub enum Algorithm {
    RsassaPkcs1v15,
    RsaPss,
    RsaOaep,
    Ecdsa,
    Ecdh,
    AesCtr,
    AesCbc,
    AesGcm,
    AesKw,
    Hmac,
}

/// A key: its type, extractability, algorithm and allowed usages.
#[derive(Debug)]
pub struct WebCryptoKey {
    pub key_type: KeyType,
    pub extractable: bool,
    pub algorithm: Algorithm,
    pub usages: Vec<KeyUsage>,
}

/// A pairing of a public and a private key.
#[derive(Debug)]
pub struct CryptoKeyPair<A, B> {
    pub public_key: A,
    pub private_key: B,
}

/// A pairing of two web-crypto keys.
pub type WebCryptoKeyPair = CryptoKeyPair<WebCryptoKey, WebCryptoKey>;

impl WebCryptoKeyPair {
    /// Pairs a public key with a private key.
    pub fn new(public_key: WebCryptoKey, private_key: WebCryptoKey) -> (pair: Self)
        ensures
            pair.public_key == public_key,
            pair.private_key == private_key,
    {
        Self { public_key, private_key }
    }
}

} // verus!
