use vstd::prelude::*;
use crate::data::CacheError;
use crate::data::Token;
use crate::data::TokenView;

verus! {

/// Seconds in one epoch: one day.
pub const EPOCH_LENGTH_SECS: u64 = 86400;

/// The epoch a moment (Unix seconds) falls in, reduced to the 16-bit
/// range the authority's protocol carries.
pub open spec fn spec_epoch_of(now: u64) -> u16 {
    (((now / EPOCH_LENGTH_SECS) % 65536)) as u16
}

/// Derives the current epoch from the current time.
pub fn epoch_of(now: u64) -> (r: u16)
    ensures
        r == spec_epoch_of(now),
{
    ((now / EPOCH_LENGTH_SECS) % 65536) as u16
}

/// How one entitlement level's acquisition attempt ended.
pub enum AttemptResult {
    /// The authority granted a token that verified against the level's
    /// long-term public key.
    Granted(Token),
    /// The account is not entitled at this level: the next level in the
    /// list is attempted, with a brand-new random digest.
    WrongLevel,
    /// A fatal failure: the whole acquisition aborts with this error and
    /// no further level is attempted.
    Failed(CacheError),
}

/// Decides an attempt from the signature verification outcome: a valid
/// unblinded signature yields the token bound to this level, epoch and
/// digest; an invalid one is fatal and is never retried at another level.
pub fn judge_signature(
    valid: bool,
    user_info: Vec<u8>,
    level: String,
    epoch: u16,
    unblinded_digest: Vec<u8>,
    unblinded_signature: mizaru::UnblindedSignature,
) -> (r: AttemptResult)
    ensures
        valid ==> (r matches AttemptResult::Granted(t) && t@ == (TokenView {
            user_info: user_info@,
            level: level@,
            epoch,
            unblinded_digest: unblinded_digest@,
            unblinded_signature,
        })),
        !valid ==> r == AttemptResult::Failed(CacheError::SignatureVerification),
{
    if valid {
        AttemptResult::Granted(
            Token { user_info, level, epoch, unblinded_digest, unblinded_signature },
        )
    } else {
        AttemptResult::Failed(CacheError::SignatureVerification)
    }
}

/// How the whole acquisition resolves from the outcome of the "plus"
/// attempt and — consulted only after a WrongLevel answer — the outcome
/// of the "free" attempt.
pub open spec fn spec_acquire(first: AttemptResult, second: AttemptResult) -> Result<
    Token,
    CacheError,
> {
    match first {
        AttemptResult::Granted(t) => Ok(t),
        AttemptResult::Failed(e) => Err(e),
        AttemptResult::WrongLevel => match second {
            AttemptResult::Granted(t) => Ok(t),
            AttemptResult::Failed(e) => Err(e),
            AttemptResult::WrongLevel => Err(CacheError::LevelsExhausted),
        },
    }
}

/// Law: an invalid or forged unblinded signature on the first level
/// aborts the whole acquisition with a signature-verification failure,
/// whatever the remaining level would have answered.
pub proof fn lemma_invalid_signature_aborts(second: AttemptResult)
    ensures
        spec_acquire(AttemptResult::Failed(CacheError::SignatureVerification), second)
            == Err::<Token, CacheError>(CacheError::SignatureVerification),
{
}

/// Law: a token granted on the first level is accepted as is; the second
/// level is never consulted.
pub proof fn lemma_granted_first_accepted(t: Token, second: AttemptResult)
    ensures
        spec_acquire(AttemptResult::Granted(t), second) == Ok::<Token, CacheError>(t),
{
}

/// Law: a WrongLevel answer on the first level falls through to exactly
/// one follow-up attempt; when that one also answers WrongLevel, the
/// acquisition fails with LevelsExhausted.
pub proof fn lemma_wrong_level_tries_next(t: Token)
    ensures
        spec_acquire(AttemptResult::WrongLevel, AttemptResult::Granted(t)) == Ok::<
            Token,
            CacheError,
        >(t),
        spec_acquire(AttemptResult::WrongLevel, AttemptResult::WrongLevel) == Err::<
            Token,
            CacheError,
        >(CacheError::LevelsExhausted),
{
}

} // verus!
