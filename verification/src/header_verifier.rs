//! The header-transition check: whether an untrusted light block is an
//! acceptable successor of a trusted one.
//!
//! The threshold rule is exclusive throughout: a share of voting power
//! passes only where it is strictly greater than the trust threshold.

use vstd::prelude::*;
use crate::types::{
    CommitSig, LightBlock, Validator, bytes_eq, has_address, lemma_prefix_power_bounded, total_power,
};

verus! {

/// A fraction of voting power.
#[derive(Clone, Copy, Debug, PartialEq, Eq)]
pub struct TrustThreshold {
    pub numerator: u64,
    pub denominator: u64,
}

/// The parameters of the check. Durations are in nanoseconds.
#[derive(Clone, Copy, Debug, PartialEq, Eq)]
pub struct TrustOptions {
    pub trust_threshold: TrustThreshold,
    /// The longest span between the trusted and the untrusted header.
    pub trusting_period: u64,
    /// How far ahead of the local clock a header's time may lie.
    pub clock_drift: u64,
}

/// The outcome of the check.
#[derive(Clone, Copy, Debug, PartialEq, Eq, Structural)]
pub enum Verdict {
    /// Every check passed.
    Success,
    /// There is no trust basis, or the commit carries too little power.
    InsufficientTrust,
    /// The update spans more than the trusting period.
    Expired,
    /// The untrusted height is not above the trusted height.
    InvalidCommit,
    /// The untrusted header's time lies too far ahead of the clock.
    TimeDrift,
}

/// The margin added to the untrusted header's time to obtain the time of
/// the check: 20 seconds.
pub const SKEW_MARGIN: u64 = 20_000_000_000;

/// The trusting period used where none is configured: 500 seconds.
pub const SHORT_TRUSTING_PERIOD: u64 = 500_000_000_000;

impl TrustThreshold {
    /// The denominator is positive and the fraction is at most one.
    pub open spec fn wf(&self) -> bool {
        0 < self.denominator && self.numerator <= self.denominator
    }

    /// The fraction `numerator / denominator`, where the denominator is
    /// positive and the fraction is at most one.
    pub fn new(numerator: u64, denominator: u64) -> (r: Option<TrustThreshold>)
        ensures
            r.is_some() == (0 < denominator && numerator <= denominator),
            r.is_some() ==> r.unwrap().numerator == numerator && r.unwrap().denominator
                == denominator && r.unwrap().wf(),
    {
        if 0 < denominator && numerator <= denominator {
            Some(TrustThreshold { numerator, denominator })
        } else {
            None
        }
    }

    /// One third.
    pub fn one_third() -> (t: TrustThreshold)
        ensures
            t.numerator == 1,
            t.denominator == 3,
            t.wf(),
    {
        TrustThreshold { numerator: 1, denominator: 3 }
    }

    /// Whether `part` out of `whole` is strictly more than this fraction.
    pub fn is_exceeded_by(&self, part: u64, whole: u64) -> (r: bool)
        ensures
            r == exceeds_threshold(part as nat, whole as nat, *self),
    {
        let lhs: u128 = Self::product(part, self.denominator);
        let rhs: u128 = Self::product(whole, self.numerator);
        lhs > rhs
    }

    fn product(a: u64, b: u64) -> (p: u128)
        ensures
            p == a * b,
    {
        assert(a * b <= 0xffff_ffff_ffff_ffff * 0xffff_ffff_ffff_ffff) by (nonlinear_arith)
            requires
                0 <= a <= 0xffff_ffff_ffff_ffff,
                0 <= b <= 0xffff_ffff_ffff_ffff,
        ;
        (a as u128) * (b as u128)
    }
}

impl TrustOptions {
    /// A threshold of one third, no clock drift, and the given trusting
    /// period.
    pub fn with_trusting_period(trusting_period: u64) -> (o: TrustOptions)
        ensures
            o == default_options(trusting_period),
    {
        TrustOptions { trust_threshold: TrustThreshold::one_third(), trusting_period, clock_drift: 0 }
    }
}

/// A threshold of one third, no clock drift, and the given trusting period.
pub open spec fn default_options(trusting_period: u64) -> TrustOptions {
    TrustOptions {
        trust_threshold: TrustThreshold { numerator: 1, denominator: 3 },
        trusting_period,
        clock_drift: 0,
    }
}

/// The threshold rule: `part / whole > numerator / denominator`, stated
/// without division.
pub open spec fn exceeds_threshold(part: nat, whole: nat, t: TrustThreshold) -> bool {
    part * t.denominator > whole * t.numerator
}

/// Whether the commit holds a vote for the block by the validator `addr`.
pub open spec fn has_commit_vote(sigs: Seq<CommitSig>, addr: Seq<u8>) -> bool {
    exists|i: int|
        0 <= i < sigs.len() && (#[trigger] sigs[i]) is Commit && sigs[i].signer() == Some(addr)
}

/// The sum of the powers of those validators of `vals` that `chosen` holds
/// of; each validator counts once.
pub open spec fn selected_power(vals: Seq<Validator>, chosen: spec_fn(Validator) -> bool) -> nat
    decreases vals.len(),
{
    if vals.len() == 0 {
        0
    } else {
        selected_power(vals.drop_last(), chosen) + if chosen(vals.last()) {
            vals.last().power as nat
        } else {
            0
        }
    }
}

/// Holds of the validators that voted for the block in `sigs`.
pub open spec fn voted_in(sigs: Seq<CommitSig>) -> spec_fn(Validator) -> bool {
    |v: Validator| has_commit_vote(sigs, v.address@)
}

/// Holds of the validators whose address `others` lists.
pub open spec fn listed_in(others: Seq<Validator>) -> spec_fn(Validator) -> bool {
    |v: Validator| has_address(others, v.address@)
}

/// The voting power, in `vals`, behind the votes for the block in `sigs`.
pub open spec fn signed_power(sigs: Seq<CommitSig>, vals: Seq<Validator>) -> nat {
    selected_power(vals, voted_in(sigs))
}

/// The voting power, in `trusted_next`, of the validators that `untrusted`
/// lists too.
pub open spec fn overlap_power(trusted_next: Seq<Validator>, untrusted: Seq<Validator>) -> nat {
    selected_power(trusted_next, listed_in(untrusted))
}

/// A selection never holds more power than the whole list.
pub proof fn lemma_selected_power_bounded(vals: Seq<Validator>, chosen: spec_fn(Validator) -> bool)
    ensures
        selected_power(vals, chosen) <= total_power(vals),
    decreases vals.len(),
{
    if vals.len() > 0 {
        lemma_selected_power_bounded(vals.drop_last(), chosen);
    }
}

/// Whether the trusted block gives a basis to trust the untrusted one: its
/// next validator set is the untrusted block's set (by hash), or the two
/// overlap in more than the threshold of the trusted set's power.
pub open spec fn has_trust_basis(trusted: LightBlock, untrusted: LightBlock, t: TrustThreshold) -> bool {
    untrusted.validators.hash@ == trusted.next_validators.hash@ || exceeds_threshold(
        overlap_power(trusted.next_validators.validators@, untrusted.validators.validators@),
        total_power(trusted.next_validators.validators@),
        t,
    )
}

/// Whether the untrusted block's commit carries more than the threshold of
/// the power of its own validator set.
pub open spec fn has_enough_signed_power(untrusted: LightBlock, t: TrustThreshold) -> bool {
    exceeds_threshold(
        signed_power(untrusted.signed_header.commit.signatures@, untrusted.validators.validators@),
        total_power(untrusted.validators.validators@),
        t,
    )
}

/// The verdict on the update from `trusted` to `untrusted` at time `now`.
/// The checks are made in this order, and the first that fails decides.
pub open spec fn verdict_of(
    trusted: LightBlock,
    untrusted: LightBlock,
    options: TrustOptions,
    now: int,
) -> Verdict {
    if !(trusted.signed_header.header.height < untrusted.signed_header.header.height) {
        Verdict::InvalidCommit
    } else if !has_trust_basis(trusted, untrusted, options.trust_threshold) {
        Verdict::InsufficientTrust
    } else if !has_enough_signed_power(untrusted, options.trust_threshold) {
        Verdict::InsufficientTrust
    } else if !(untrusted.signed_header.header.time <= now + options.clock_drift) {
        Verdict::TimeDrift
    } else if !(untrusted.signed_header.header.time - trusted.signed_header.header.time
        <= options.trusting_period) {
        Verdict::Expired
    } else {
        Verdict::Success
    }
}

/// Whether the commit holds a vote for the block by the validator `addr`.
pub fn commit_has_vote(sigs: &Vec<CommitSig>, addr: &[u8; 20]) -> (r: bool)
    ensures
        r == has_commit_vote(sigs@, addr@),
{
    let mut i: usize = 0;
    while i < sigs.len()
        invariant
            i <= sigs.len(),
            forall|k: int|
                0 <= k < i ==> !((#[trigger] sigs@[k]) is Commit && sigs@[k].signer() == Some(addr@)),
        decreases sigs.len() - i,
    {
        match &sigs[i] {
            CommitSig::Commit { validator_address } => {
                if bytes_eq(validator_address, addr) {
                    return true;
                }
            },
            _ => {},
        }
        i += 1;
    }
    false
}

/// The voting power, in the block's own validator set, behind the votes
/// for the block in its commit.
pub fn tally_signed_power(block: &LightBlock) -> (p: u64)
    requires
        block.validators.wf(),
    ensures
        p == signed_power(block.signed_header.commit.signatures@, block.validators.validators@),
{
    let vals = &block.validators.validators;
    let sigs = &block.signed_header.commit.signatures;
    let mut acc: u64 = 0;
    let mut i: usize = 0;
    while i < vals.len()
        invariant
            i <= vals.len(),
            total_power(vals@) <= u64::MAX,
            acc == selected_power(vals@.take(i as int), voted_in(sigs@)),
        decreases vals.len() - i,
    {
        proof {
            assert(vals@.take(i + 1).drop_last() =~= vals@.take(i as int));
            lemma_selected_power_bounded(vals@.take(i + 1), voted_in(sigs@));
            lemma_prefix_power_bounded(vals@, i + 1);
        }
        if commit_has_vote(sigs, &vals[i].address) {
            acc = acc + vals[i].power;
        }
        i += 1;
    }
    proof {
        assert(vals@.take(i as int) =~= vals@);
    }
    acc
}

/// The voting power, in the trusted block's next validator set, of the
/// validators that the untrusted block's set lists too.
pub fn tally_overlap_power(trusted: &LightBlock, untrusted: &LightBlock) -> (p: u64)
    requires
        trusted.next_validators.wf(),
    ensures
        p == overlap_power(trusted.next_validators.validators@, untrusted.validators.validators@),
{
    let vals = &trusted.next_validators.validators;
    let mut acc: u64 = 0;
    let mut i: usize = 0;
    while i < vals.len()
        invariant
            i <= vals.len(),
            total_power(vals@) <= u64::MAX,
            acc == selected_power(vals@.take(i as int), listed_in(untrusted.validators.validators@)),
        decreases vals.len() - i,
    {
        proof {
            assert(vals@.take(i + 1).drop_last() =~= vals@.take(i as int));
            lemma_selected_power_bounded(vals@.take(i + 1), listed_in(untrusted.validators.validators@));
            lemma_prefix_power_bounded(vals@, i + 1);
        }
        if untrusted.validators.contains_address(&vals[i].address) {
            acc = acc + vals[i].power;
        }
        i += 1;
    }
    proof {
        assert(vals@.take(i as int) =~= vals@);
    }
    acc
}

fn verdict_at(trusted: &LightBlock, untrusted: &LightBlock, options: &TrustOptions, now: u128) -> (v:
    Verdict)
    requires
        trusted.next_validators.wf(),
        untrusted.validators.wf(),
        now <= 2 * u64::MAX,
    ensures
        v == verdict_of(*trusted, *untrusted, *options, now as int),
{
    if !(trusted.height() < untrusted.height()) {
        return Verdict::InvalidCommit;
    }
    let threshold = &options.trust_threshold;
    if !bytes_eq(&untrusted.validators.hash, &trusted.next_validators.hash) {
        let overlap = tally_overlap_power(trusted, untrusted);
        let whole = trusted.next_validators.total_power();
        if !threshold.is_exceeded_by(overlap, whole) {
            return Verdict::InsufficientTrust;
        }
    }
    let signed = tally_signed_power(untrusted);
    let total = untrusted.validators.total_power();
    if !threshold.is_exceeded_by(signed, total) {
        return Verdict::InsufficientTrust;
    }
    let time: u128 = untrusted.time() as u128;
    if !(time <= now + options.clock_drift as u128) {
        return Verdict::TimeDrift;
    }
    if untrusted.time() > trusted.time() && untrusted.time() - trusted.time() > options.trusting_period {
        return Verdict::Expired;
    }
    Verdict::Success
}

/// Checks the update from `trusted` to `untrusted` at time `now`
/// (nanoseconds since the Unix epoch).
pub fn verify_update_header(
    trusted: &LightBlock,
    untrusted: &LightBlock,
    options: &TrustOptions,
    now: u64,
) -> (v: Verdict)
    requires
        trusted.next_validators.wf(),
        untrusted.validators.wf(),
    ensures
        v == verdict_of(*trusted, *untrusted, *options, now as int),
{
    verdict_at(trusted, untrusted, options, now as u128)
}

/// Checks the update from `trusted` to `untrusted` at the untrusted block's
/// time plus the skew margin, which allows for the time that proving takes.
pub fn verify_with_skew(trusted: &LightBlock, untrusted: &LightBlock, options: &TrustOptions) -> (v:
    Verdict)
    requires
        trusted.next_validators.wf(),
        untrusted.validators.wf(),
    ensures
        v == verdict_of(
            *trusted,
            *untrusted,
            *options,
            untrusted.signed_header.header.time + SKEW_MARGIN,
        ),
{
    let now: u128 = untrusted.time() as u128 + SKEW_MARGIN as u128;
    verdict_at(trusted, untrusted, options, now)
}

/// Checks the update from `light_block_1` to `light_block_2` with a
/// threshold of one third, no clock drift and a trusting period of 500
/// seconds, at the second block's time plus the skew margin.
pub fn verify_blocks(light_block_1: &LightBlock, light_block_2: &LightBlock) -> (v: Verdict)
    requires
        light_block_1.next_validators.wf(),
        light_block_2.validators.wf(),
    ensures
        v == verdict_of(
            *light_block_1,
            *light_block_2,
            default_options(SHORT_TRUSTING_PERIOD),
            light_block_2.signed_header.header.time + SKEW_MARGIN,
        ),
{
    let options = TrustOptions::with_trusting_period(SHORT_TRUSTING_PERIOD);
    verify_with_skew(light_block_1, light_block_2, &options)
}

/// Two light blocks hold the same content: the same header, signatures,
/// validators, hashes and peer.
pub open spec fn same_content(a: LightBlock, b: LightBlock) -> bool {
    &&& a.signed_header.header == b.signed_header.header
    &&& a.signed_header.commit.signatures@ == b.signed_header.commit.signatures@
    &&& a.validators.validators@ == b.validators.validators@
    &&& a.validators.hash@ == b.validators.hash@
    &&& a.next_validators.validators@ == b.next_validators.validators@
    &&& a.next_validators.hash@ == b.next_validators.hash@
    &&& a.peer_id@ == b.peer_id@
}

/// The verdict is a function of what the light blocks hold, of the options
/// and of the time: the same inputs always give the same verdict.
pub proof fn lemma_same_inputs_same_verdict(
    trusted_1: LightBlock,
    untrusted_1: LightBlock,
    trusted_2: LightBlock,
    untrusted_2: LightBlock,
    options: TrustOptions,
    now: int,
)
    requires
        same_content(trusted_1, trusted_2),
        same_content(untrusted_1, untrusted_2),
    ensures
        verdict_of(trusted_1, untrusted_1, options, now) == verdict_of(
            trusted_2,
            untrusted_2,
            options,
            now,
        ),
{
}

/// The threshold rule is exclusive: a share exactly at the threshold, or
/// below it, does not pass.
pub proof fn lemma_threshold_is_exclusive(part: nat, whole: nat, t: TrustThreshold)
    requires
        part * t.denominator <= whole * t.numerator,
    ensures
        !exceeds_threshold(part, whole, t),
{
}

/// Signed power exactly at the threshold, or below it, is not enough: with
/// ascending heights the verdict is `InsufficientTrust`.
pub proof fn lemma_signed_power_at_threshold_is_insufficient(
    trusted: LightBlock,
    untrusted: LightBlock,
    options: TrustOptions,
    now: int,
)
    requires
        trusted.signed_header.header.height < untrusted.signed_header.header.height,
        signed_power(untrusted.signed_header.commit.signatures@, untrusted.validators.validators@)
            * options.trust_threshold.denominator <= total_power(untrusted.validators.validators@)
            * options.trust_threshold.numerator,
    ensures
        verdict_of(trusted, untrusted, options, now) == Verdict::InsufficientTrust,
{
}

/// Signed power above the threshold is enough: where heights ascend and a
/// trust basis holds, the verdict is not `InsufficientTrust`.
pub proof fn lemma_signed_power_above_threshold_is_enough(
    trusted: LightBlock,
    untrusted: LightBlock,
    options: TrustOptions,
    now: int,
)
    requires
        has_trust_basis(trusted, untrusted, options.trust_threshold),
        signed_power(untrusted.signed_header.commit.signatures@, untrusted.validators.validators@)
            * options.trust_threshold.denominator > total_power(untrusted.validators.validators@)
            * options.trust_threshold.numerator,
    ensures
        verdict_of(trusted, untrusted, options, now) != Verdict::InsufficientTrust,
{
}

/// An update that spans more than the trusting period never succeeds.
pub proof fn lemma_expired_update_never_succeeds(
    trusted: LightBlock,
    untrusted: LightBlock,
    options: TrustOptions,
    now: int,
)
    requires
        untrusted.signed_header.header.time - trusted.signed_header.header.time
            > options.trusting_period,
    ensures
        verdict_of(trusted, untrusted, options, now) != Verdict::Success,
{
}

/// The verdict is `Success` exactly where every check passes.
pub proof fn lemma_success_means_all_checks_pass(
    trusted: LightBlock,
    untrusted: LightBlock,
    options: TrustOptions,
    now: int,
)
    ensures
        verdict_of(trusted, untrusted, options, now) == Verdict::Success <==> {
            &&& trusted.signed_header.header.height < untrusted.signed_header.header.height
            &&& has_trust_basis(trusted, untrusted, options.trust_threshold)
            &&& has_enough_signed_power(untrusted, options.trust_threshold)
            &&& untrusted.signed_header.header.time <= now + options.clock_drift
            &&& untrusted.signed_header.header.time - trusted.signed_header.header.time
                <= options.trusting_period
        },
{
}

} // verus!
