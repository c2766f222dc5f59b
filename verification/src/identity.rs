//! Ed25519 signatures, made and checked with libp2p's identity keys.
//!
//! Nothing here is proved: the three functions below hand their arguments to
//! libp2p, and their contracts state what libp2p is trusted to do.

use vstd::prelude::*;
use libp2p::identity::ed25519::Keypair;
use libp2p::identity::ed25519::PublicKey;

verus! {

/// libp2p's Ed25519 keypair. The library carries it and never looks inside.
#[verifier::external_type_specification]
#[verifier::external_body]
pub struct ExKeypair(Keypair);

/// The public key of a keypair, in compressed form: the 32 bytes that
/// `Keypair::public` followed by `PublicKey::to_bytes` returns.
pub uninterp spec fn keypair_public(keypair: Keypair) -> Seq<u8>;

/// The Ed25519 signature of `message` under the secret key of `keypair`: the
/// 64 bytes that `Keypair::sign` returns. Signing reads neither a clock nor a
/// source of chance, so a keypair and a message have one signature.
pub uninterp spec fn ed25519_signature(keypair: Keypair, message: Seq<u8>) -> Seq<u8>;

/// Whether `public_key` is an Ed25519 public key under which `signature`
/// verifies for `message`: what `PublicKey::try_from_bytes` followed by
/// `PublicKey::verify` decides.
pub uninterp spec fn ed25519_accepts(public_key: Seq<u8>, message: Seq<u8>, signature: Seq<u8>) -> bool;

/// Calls `Keypair::public` and `PublicKey::to_bytes`, which give the
/// compressed public key of the keypair.
#[verifier::external_body]
pub(crate) fn public_key_bytes(keypair: &Keypair) -> (key: [u8; 32])
    ensures
        key@ == keypair_public(*keypair),
{
    keypair.public().to_bytes()
}

/// Calls `Keypair::sign`. Trusted: the result is the signature of the
/// message under the keypair, it has 64 bytes, and it verifies for the same
/// message under the public key of the same keypair.
#[verifier::external_body]
pub(crate) fn ed25519_sign(keypair: &Keypair, message: &[u8]) -> (signature: Vec<u8>)
    ensures
        signature@ == ed25519_signature(*keypair, message@),
        signature@.len() == 64,
        ed25519_accepts(keypair_public(*keypair), message@, signature@),
{
    keypair.sign(message)
}

/// Calls `PublicKey::try_from_bytes` and, with the key it gives,
/// `PublicKey::verify`. Bytes that are no public key verify nothing, and
/// neither does a signature that is not 64 bytes long.
#[verifier::external_body]
pub(crate) fn ed25519_verify(public_key: &[u8; 32], message: &[u8], signature: &[u8]) -> (accepted: bool)
    ensures
        accepted == ed25519_accepts(public_key@, message@, signature@),
        signature@.len() != 64 ==> !accepted,
{
    match PublicKey::try_from_bytes(public_key) {
        Ok(key) => key.verify(message, signature),
        Err(_) => false,
    }
}

} // verus!
