//! The round-chained signature check and randomness derivation.
//!
//! The pairing-based primitives come from the `drand_verify` crate and are
//! consumed as trusted black boxes; their outcomes are deterministic in their
//! byte inputs, so they are named by uninterpreted spec functions that the
//! rest of the library's contracts build on.

use vstd::prelude::*;

verus! {

/// Whether `bytes` is a well-formed compressed G1 verification key.
/// Decoding depends on the bytes alone.
pub uninterp spec fn g1_key_parses(bytes: Seq<u8>) -> bool;

/// The outcome of the chained BLS check of `sig` for `round` against the key
/// encoded by `pubkey` and the previous round's signature, with any internal
/// verification fault folded into "invalid".
pub uninterp spec fn beacon_verifies(
    pubkey: Seq<u8>,
    round: u64,
    prev_sig: Seq<u8>,
    sig: Seq<u8>,
) -> bool;

/// The 32-byte randomness derived from a round's signature; it depends on
/// the signature bytes alone.
pub uninterp spec fn randomness_of(sig: Seq<u8>) -> Seq<u8>;

#[verifier::external_type_specification]
#[verifier::external_body]
pub struct ExG1Pubkey(drand_verify::G1Pubkey);

#[verifier::external_type_specification]
#[verifier::external_body]
pub struct ExVerificationError(drand_verify::VerificationError);

/// A decoded verification key, remembering the exact bytes it was decoded
/// from. The only constructor is [`parse_key`], so the point always is the
/// decoding of those bytes.
pub struct VerifyingKey {
    point: drand_verify::G1Pubkey,
    bytes: Vec<u8>,
}

impl VerifyingKey {
    /// The byte encoding this key was decoded from.
    pub closed spec fn encoding(&self) -> Seq<u8> {
        self.bytes@
    }
}

/// Relies on `drand_verify::Pubkey::from_variable` for `G1Pubkey`: it decodes
/// a 48-byte compressed G1 point, succeeding or failing on the bytes alone.
#[verifier::external_body]
pub fn parse_key(pubkey: &Vec<u8>) -> (r: Option<VerifyingKey>)
    ensures
        r is Some <==> g1_key_parses(pubkey@),
        r matches Some(k) ==> k.encoding() == pubkey@,
{
    match <drand_verify::G1Pubkey as drand_verify::Pubkey>::from_variable(pubkey.as_slice()) {
        Ok(point) => Some(VerifyingKey { point, bytes: pubkey.clone() }),
        Err(_) => None,
    }
}

/// Relies on `drand_verify::Pubkey::verify`: the check binds the key, the
/// round and the previous round's signature to the signature, and its outcome
/// (including whether it faults on a malformed signature point) depends on
/// those inputs alone.
#[verifier::external_body]
pub fn verify_round(
    key: &VerifyingKey,
    round: u64,
    previous_signature: &Vec<u8>,
    signature: &Vec<u8>,
) -> (r: Result<bool, drand_verify::VerificationError>)
    ensures
        r matches Ok(valid) ==> valid == beacon_verifies(
            key.encoding(),
            round,
            previous_signature@,
            signature@,
        ),
        r is Err ==> !beacon_verifies(key.encoding(), round, previous_signature@, signature@),
{
    drand_verify::Pubkey::verify(
        &key.point,
        round,
        previous_signature.as_slice(),
        signature.as_slice(),
    )
}

/// Relies on `drand_verify::derive_randomness`: a 32-byte digest of the
/// signature bytes alone.
#[verifier::external_body]
pub fn derive_randomness(signature: &Vec<u8>) -> (r: Vec<u8>)
    ensures
        r@ == randomness_of(signature@),
        r@.len() == 32,
{
    drand_verify::derive_randomness(signature.as_slice()).to_vec()
}

} // verus!
