//! Interface to the external proof system.
//!
//! Key generation and proving consume a constraint synthesizer and live
//! with the caller that drives the proof system; the library holds the
//! artifacts opaquely, verifies proofs against ordered public inputs, and
//! moves proofs across the byte boundary.  A deserialization failure is a
//! verification failure, never a crash.

use vstd::prelude::*;
use ark_ff::PrimeField as ArkPrimeField;
use ark_snark::SNARK;
use crate::field::{Fp, fp_vals};

verus! {

/// A proving key of the external proof system.  Opaque to the verifier;
/// the raw key stays reachable for the caller that drives proving.
#[verifier::external_body]
pub struct ProvingKey {
    pub key: ark_groth16::ProvingKey<ark_bls12_381::Bls12_381>,
}

/// A verifying key of the external proof system.
#[verifier::external_body]
pub struct VerifyingKey {
    pub key: ark_groth16::VerifyingKey<ark_bls12_381::Bls12_381>,
}

/// A proof produced by the external proof system.
#[verifier::external_body]
pub struct Proof {
    pub proof: ark_groth16::Proof<ark_bls12_381::Bls12_381>,
}

/// A failure reported by the external proof system while checking a
/// proof; surfaced opaquely.
#[derive(Clone, Copy, Debug, PartialEq, Eq, Structural)]
pub struct VerificationError;

/// Whether 192 bytes are a canonical proof encoding.  Deserialization is
/// a function of the bytes alone, so the outcome carries a name; what
/// makes an encoding canonical (the curve checks on the decoded points)
/// is the proof system's own business.
pub uninterp spec fn proof_decodes(bytes: Seq<u8>) -> bool;

/// The proof that canonical bytes decode to.
pub uninterp spec fn decoded_proof(bytes: Seq<u8>) -> Proof;

/// The proof system's positive verdict on a verifying key, the ordered
/// public-input values, and a proof.  Checking a proof is deterministic
/// in the three, so the outcome carries a name; when it is positive is
/// the proof system's own business.
pub uninterp spec fn groth16_verdict(vk: VerifyingKey, public_inputs: Seq<nat>, proof: Proof) -> bool;

/// Relies on `ark_groth16` `Groth16::verify`: whether the proof holds of
/// the verifying key and the ordered public inputs.  A clean positive
/// verdict is returned exactly when the proof system accepts the triple,
/// which is what the verdict name stands for.
#[verifier::external_body]
fn groth16_verify(vk: &VerifyingKey, public_inputs: &Vec<Fp>, proof: &Proof) -> (r: Result<
    bool,
    VerificationError,
>)
    requires
        forall|i: int| 0 <= i < public_inputs@.len() ==> (#[trigger] public_inputs@[i]).wf(),
    ensures
        (r == Ok::<bool, VerificationError>(true)) == groth16_verdict(
            *vk,
            fp_vals(public_inputs@),
            *proof,
        ),
{
    let mut inputs: Vec<ark_bls12_381::Fr> = Vec::new();
    for f in public_inputs.iter() {
        inputs.push(
            ark_bls12_381::Fr::from_repr(ark_ff::BigInteger256::new([f.l0, f.l1, f.l2, f.l3]))
                .unwrap(),
        );
    }
    match ark_groth16::Groth16::<ark_bls12_381::Bls12_381>::verify(&vk.key, &inputs, &proof.proof) {
        Ok(b) => Ok(b),
        Err(_) => Err(VerificationError),
    }
}

/// Checks a proof against the verifying key and the ordered public
/// inputs, surfacing the proof system's failures opaquely: the clean
/// positive verdict comes exactly on the triples the proof system
/// accepts.
pub fn verify(vk: &VerifyingKey, public_inputs: &Vec<Fp>, proof: &Proof) -> (r: Result<
    bool,
    VerificationError,
>)
    requires
        forall|i: int| 0 <= i < public_inputs@.len() ==> (#[trigger] public_inputs@[i]).wf(),
    ensures
        (r == Ok::<bool, VerificationError>(true)) == groth16_verdict(
            *vk,
            fp_vals(public_inputs@),
            *proof,
        ),
{
    groth16_verify(vk, public_inputs, proof)
}

/// Turns a verification outcome into acceptance: only a clean positive
/// verdict accepts; an error means "reject", never a crash.
pub fn accepts(verdict: Result<bool, VerificationError>) -> (r: bool)
    ensures
        r <==> verdict == Result::<bool, VerificationError>::Ok(true),
{
    match verdict {
        Ok(b) => b,
        Err(_) => false,
    }
}

/// Relies on `ark_serialize` `CanonicalSerialize` for the proof: exactly
/// 192 bytes for this proof system.
#[verifier::external_body]
pub fn proof_to_bytes(proof: &Proof) -> (r: Vec<u8>)
    ensures
        r@.len() == 192,
{
    let mut out: Vec<u8> = Vec::new();
    ark_serialize::CanonicalSerialize::serialize(&proof.proof, &mut out).unwrap();
    out
}

/// Relies on `ark_serialize` `CanonicalDeserialize` for the proof: decodes
/// 192 bytes back into a proof exactly when they are a canonical encoding
/// — a function of the bytes alone, named above.
#[verifier::external_body]
pub fn proof_from_bytes(bytes: &[u8; 192]) -> (r: Option<Proof>)
    ensures
        r is Some <==> proof_decodes(bytes@),
        r matches Some(p) ==> p == decoded_proof(bytes@),
{
    match <ark_groth16::Proof<ark_bls12_381::Bls12_381> as ark_serialize::CanonicalDeserialize>::deserialize(
        &bytes[..],
    ) {
        Ok(p) => Some(Proof { proof: p }),
        Err(_) => None,
    }
}

} // verus!
