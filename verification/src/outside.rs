use vstd::prelude::*;

verus! {

/// The `rsa` crate's public-key type: the authority's per-epoch signing
/// subkey. Opaque here; only the blind-signature wrappers consume it.
#[verifier::external_type_specification]
#[verifier::external_body]
pub struct ExRsaPublicKey(rsa::RSAPublicKey);

/// `mizaru::PublicKey`: a level's long-term public key (a Merkle root
/// over the per-epoch subkeys). Opaque here.
#[verifier::external_type_specification]
#[verifier::external_body]
pub struct ExMizaruPublicKey(mizaru::PublicKey);

/// `mizaru::BlindedSignature`: what the authority returns from a
/// successful authentication, still blinded. Opaque here.
#[verifier::external_type_specification]
#[verifier::external_body]
pub struct ExBlindedSignature(mizaru::BlindedSignature);

/// `mizaru::UnblindedSignature`: the credential actually presented to
/// relays. Opaque here; carried through the cache and requests whole.
#[verifier::external_type_specification]
#[verifier::external_body]
pub struct ExUnblindedSignature(mizaru::UnblindedSignature);

/// `rsa_fdh::Error`: how the full-domain-hash step reports failure.
#[verifier::external_type_specification]
#[verifier::external_body]
pub struct ExFdhError(rsa_fdh::Error);

/// Relies on `mizaru::UnblindedSignature`'s derived `Clone`, which copies
/// every field, so the copy equals the original.
pub assume_specification[ <mizaru::UnblindedSignature as Clone>::clone ](
    s: &mizaru::UnblindedSignature,
) -> (r: mizaru::UnblindedSignature)
    ensures
        r == *s,
;

/// Copies an unblinded signature.
pub(crate) fn clone_signature(s: &mizaru::UnblindedSignature) -> (r: mizaru::UnblindedSignature)
    ensures
        r == *s,
{
    s.clone()
}

/// Relies on `std::time::SystemTime::now`: the wall clock, read as whole
/// seconds since the Unix epoch. The clock is outside the program, so
/// nothing is promised of the value.
#[verifier::external_body]
pub(crate) fn unix_now() -> u64 {
    std::time::SystemTime::now()
        .duration_since(std::time::UNIX_EPOCH)
        .map(|d| d.as_secs())
        .unwrap_or(0)
}

/// Relies on `rand::thread_rng` and `rand::Rng::gen`: 32 uniformly random
/// bytes, drawn fresh on every call. Randomness is outside the program,
/// so only the length is stated.
#[verifier::external_body]
pub(crate) fn fresh_digest() -> (r: Vec<u8>)
    ensures
        r@.len() == 32,
{
    let d: [u8; 32] = rand::Rng::gen(&mut rand::thread_rng());
    d.to_vec()
}

/// Relies on `rsa_fdh::blind::hash_message` with SHA-256: the
/// full-domain hash of `message` under `subkey`, the digest that is
/// blinded, signed and finally bound into the token. Its bytes are not
/// further specified here.
#[verifier::external_body]
pub(crate) fn fdh_hash(subkey: &rsa::RSAPublicKey, message: &Vec<u8>) -> Result<
    Vec<u8>,
    rsa_fdh::Error,
> {
    rsa_fdh::blind::hash_message::<sha2::Sha256, _>(subkey, message.as_slice())
}

/// Relies on `rsa_fdh::blind::blind`: blinds `digest` under `subkey`
/// with fresh randomness, returning the blinded digest and the retained
/// unblinding factor. The blinding is random, so nothing is stated of
/// the bytes. The call asserts a usable modulus (it draws a random
/// number below it and inverts the blinding factor modulo it), and the
/// key arrives deserialized from the network without validation, so a
/// degenerate modulus is refused here as `None` instead of reaching the
/// call.
#[verifier::external_body]
pub(crate) fn blind_digest(subkey: &rsa::RSAPublicKey, digest: &Vec<u8>) -> Option<
    (Vec<u8>, Vec<u8>),
> {
    if rsa::PublicKeyParts::n(subkey).bits() < 2 {
        return None;
    }
    Some(rsa_fdh::blind::blind(&mut rand::thread_rng(), subkey, digest.as_slice()))
}

/// Relies on `mizaru::BlindedSignature::unblind`: removes the blinding
/// factor, yielding the unblinded signature. The result is opaque. The
/// call reduces modulo the subkey embedded in the authority's own
/// response, which arrives deserialized without validation; a zero
/// modulus would divide by zero, so it is refused here as `None`
/// instead of reaching the call.
#[verifier::external_body]
pub(crate) fn unblind_signature(
    sig: mizaru::BlindedSignature,
    unblinder: &Vec<u8>,
) -> Option<mizaru::UnblindedSignature> {
    if rsa::PublicKeyParts::n(&sig.used_key).bits() == 0 {
        return None;
    }
    Some(sig.unblind(unblinder.as_slice()))
}

/// The verdict of the guarded signature verification below: a function
/// of the key, digest and signature alone.
pub uninterp spec fn verify_of(
    pk: mizaru::PublicKey,
    digest: Seq<u8>,
    sig: mizaru::UnblindedSignature,
) -> bool;

/// Relies on `mizaru::PublicKey::blind_verify`: true exactly when `sig`
/// is a valid unblinded signature of `digest` under the long-term key.
/// The verification is SHA-256 and modular arithmetic, a function of its
/// arguments alone, so its verdict carries the name `verify_of`. The
/// call shifts the epoch right by one bit per Merkle-branch entry, and
/// the branch arrives inside the authority's response unvalidated; a
/// branch as long as the machine word would overflow the shift (an
/// honest branch has sixteen entries), so such a signature is refused
/// as invalid here without reaching the call, and `verify_of` denotes
/// the verdict with that refusal included.
#[verifier::external_body]
pub(crate) fn verify_signature(
    pk: &mizaru::PublicKey,
    digest: &Vec<u8>,
    sig: &mizaru::UnblindedSignature,
) -> (r: bool)
    ensures
        r == verify_of(*pk, digest@, *sig),
{
    if sig.merkle_branch.len() >= usize::BITS as usize {
        return false;
    }
    pk.blind_verify(digest.as_slice(), sig)
}

} // verus!
