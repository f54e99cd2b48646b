//! The computation that the proof backend certifies: check the update,
//! and expose its public values only where the check succeeds.

use vstd::prelude::*;
use crate::header_verifier::{
    SKEW_MARGIN, TrustOptions, Verdict, default_options, verdict_of, verify_with_skew,
};
use crate::public_values::{TendermintOutput, encoded, expected_output};
use crate::types::LightBlock;

verus! {

/// The trusting period of the certified check: two weeks, in nanoseconds.
pub const TRUSTING_PERIOD: u64 = 1_209_600_000_000_000;

/// The verdict of the certified check on the update from `trusted` to
/// `target`: a threshold of one third, no clock drift, a trusting period of
/// two weeks, at the target's time plus the skew margin.
pub open spec fn certified_verdict(trusted: LightBlock, target: LightBlock) -> Verdict {
    verdict_of(
        trusted,
        target,
        default_options(TRUSTING_PERIOD),
        target.signed_header.header.time + SKEW_MARGIN,
    )
}

/// Checks the update from `trusted` to `target` and gives its public
/// values, or the verdict that rejects it.
pub fn certify_update(trusted: &LightBlock, target: &LightBlock) -> (r: Result<Vec<u8>, Verdict>)
    requires
        trusted.next_validators.wf(),
        target.validators.wf(),
    ensures
        match r {
            Ok(public_values) => certified_verdict(*trusted, *target) == Verdict::Success
                && public_values@ == encoded(expected_output(*trusted, *target)@),
            Err(verdict) => verdict == certified_verdict(*trusted, *target) && verdict
                != Verdict::Success,
        },
{
    let options = TrustOptions::with_trusting_period(TRUSTING_PERIOD);
    match verify_with_skew(trusted, target, &options) {
        Verdict::Success => Ok(TendermintOutput::of_update(trusted, target).abi_encode()),
        verdict => Err(verdict),
    }
}

} // verus!
