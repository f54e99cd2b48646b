//! The operator's synchronization cycle as a state machine.
//!
//! The driver performs the action of the current state and hands the
//! result back as an event; `step` decides what comes next. A cycle runs
//! `ReadTrustedState`, `DetermineTarget`, `AssembleLightBlocks`,
//! `LocalVerify`, `GenerateProof`, `Submit`, `Sleep`, and any failure but a
//! fatal misconfiguration ends the cycle in `Sleep`.

use vstd::prelude::*;
use crate::calldata::ProofClaim;
use crate::header_verifier::{SKEW_MARGIN, TrustOptions, Verdict, verdict_of, verify_with_skew};
use crate::public_values::{encoded, expected_output, public_values_match};
use crate::types::LightBlock;

verus! {

/// How the target height is chosen from the chain's tip.
#[derive(Clone, Copy, Debug, PartialEq, Eq, Structural)]
pub enum TargetPolicy {
    /// The tip itself.
    ChainTip,
    /// The largest multiple of the interval that does not exceed the tip.
    BatchInterval(u64),
}

/// The operator's configuration.
#[derive(Clone, Copy, Debug, PartialEq, Eq)]
pub struct SyncConfig {
    pub policy: TargetPolicy,
    pub options: TrustOptions,
    /// The delay between two cycles, in seconds.
    pub sleep_seconds: u64,
}

/// A misconfiguration that stops the operator.
#[derive(Clone, Copy, Debug, PartialEq, Eq, Structural)]
pub enum FatalError {
    /// The contract reports the trusted height 0.
    NoTrustedHeight,
    /// The trusted height could not be read or resolved to a block.
    UnresolvedTrustedHeight,
}

/// Why a cycle ended without a submission.
#[derive(Clone, Copy, Debug, PartialEq, Eq, Structural)]
pub enum CycleError {
    /// The chain's tip could not be fetched.
    ChainTipUnavailable,
    /// A light block could not be assembled, or is not the one asked for.
    AssemblyFailed,
    /// The update did not pass the local check.
    VerificationFailed(Verdict),
    /// The proof backend failed.
    ProvingFailed,
    /// The claim's public values are not those of the update.
    ClaimMismatch,
    /// The transaction was rejected.
    SubmissionFailed,
    /// The event is not the result of the state's action.
    UnexpectedEvent,
}

/// How a cycle ended.
#[derive(Clone, Copy, Debug, PartialEq, Eq, Structural)]
pub enum CycleOutcome {
    /// The claim was submitted.
    Submitted,
    /// The target is not above the trusted height.
    UpToDate,
    /// The cycle was abandoned.
    Aborted(CycleError),
}

/// The states of the cycle.
#[derive(Clone, Debug, PartialEq, Eq)]
pub enum SyncState {
    ReadTrustedState,
    DetermineTarget { trusted_height: u64 },
    AssembleLightBlocks { trusted_height: u64, target_height: u64 },
    LocalVerify { trusted: LightBlock, target: LightBlock },
    GenerateProof { trusted: LightBlock, target: LightBlock },
    Submit { claim: ProofClaim },
    Sleep { outcome: CycleOutcome },
    Halted(FatalError),
}

/// What the driver reports.
#[derive(Clone, Debug, PartialEq, Eq)]
pub enum SyncEvent {
    /// The contract's trusted height; `None` where it could not be read or
    /// resolved to a block.
    TrustedHeight(Option<u64>),
    /// The height of the chain's latest commit; `None` where the fetch
    /// failed.
    ChainTip(Option<u64>),
    /// The two light blocks were assembled.
    LightBlocks { trusted: LightBlock, target: LightBlock },
    /// A light block could not be assembled.
    AssemblyFailed,
    /// The state's action needs no work of the driver.
    Continue,
    /// The proof backend produced a claim.
    Proved(ProofClaim),
    /// The proof backend failed.
    ProvingFailed,
    /// Whether the transaction was accepted.
    Submitted(bool),
    /// The delay has passed.
    Woke,
}

/// What the driver has to do in a state.
#[derive(Clone, Copy, Debug, PartialEq, Eq, Structural)]
pub enum SyncAction {
    ReadTrustedState,
    FetchChainTip,
    AssembleLightBlocks { trusted_height: u64, target_height: u64 },
    /// Nothing: report `Continue`.
    Verify,
    /// Prove the update between the state's light blocks.
    GenerateProof,
    /// Submit the state's claim.
    Submit,
    Sleep { seconds: u64 },
    Halt(FatalError),
}

/// The target height that `policy` picks for the tip `tip`.
pub open spec fn target_height(policy: TargetPolicy, tip: u64) -> u64 {
    match policy {
        TargetPolicy::ChainTip => tip,
        TargetPolicy::BatchInterval(interval) => (tip - tip % interval) as u64,
    }
}

/// The state in which a cycle ends early.
pub open spec fn aborted(error: CycleError) -> SyncState {
    SyncState::Sleep { outcome: CycleOutcome::Aborted(error) }
}

/// The verdict of the local check on the update from `trusted` to `target`.
pub open spec fn local_verdict(trusted: LightBlock, target: LightBlock, config: SyncConfig) -> Verdict {
    verdict_of(trusted, target, config.options, target.signed_header.header.time + SKEW_MARGIN)
}

/// The state that follows `state` on `event`.
pub open spec fn next_state(state: SyncState, event: SyncEvent, config: SyncConfig) -> SyncState {
    match (state, event) {
        (SyncState::Halted(_), _) => state,
        (SyncState::Sleep { .. }, SyncEvent::Woke) => SyncState::ReadTrustedState,
        (SyncState::Sleep { .. }, _) => state,
        (SyncState::ReadTrustedState, SyncEvent::TrustedHeight(None)) => SyncState::Halted(
            FatalError::UnresolvedTrustedHeight,
        ),
        (SyncState::ReadTrustedState, SyncEvent::TrustedHeight(Some(height))) => if height == 0 {
            SyncState::Halted(FatalError::NoTrustedHeight)
        } else {
            SyncState::DetermineTarget { trusted_height: height }
        },
        (SyncState::DetermineTarget { .. }, SyncEvent::ChainTip(None)) => aborted(
            CycleError::ChainTipUnavailable,
        ),
        (SyncState::DetermineTarget { trusted_height }, SyncEvent::ChainTip(Some(tip))) => if trusted_height
            < target_height(config.policy, tip) {
            SyncState::AssembleLightBlocks {
                trusted_height,
                target_height: target_height(config.policy, tip),
            }
        } else {
            SyncState::Sleep { outcome: CycleOutcome::UpToDate }
        },
        (SyncState::AssembleLightBlocks { .. }, SyncEvent::AssemblyFailed) => aborted(
            CycleError::AssemblyFailed,
        ),
        (
            SyncState::AssembleLightBlocks { trusted_height, target_height },
            SyncEvent::LightBlocks { trusted, target },
        ) => if trusted.wf() && target.wf() && trusted.signed_header.header.height == trusted_height
            && target.signed_header.header.height == target_height {
            SyncState::LocalVerify { trusted, target }
        } else {
            aborted(CycleError::AssemblyFailed)
        },
        (SyncState::LocalVerify { trusted, target }, SyncEvent::Continue) => if local_verdict(
            trusted,
            target,
            config,
        ) == Verdict::Success {
            SyncState::GenerateProof { trusted, target }
        } else {
            aborted(CycleError::VerificationFailed(local_verdict(trusted, target, config)))
        },
        (SyncState::GenerateProof { .. }, SyncEvent::ProvingFailed) => aborted(
            CycleError::ProvingFailed,
        ),
        (SyncState::GenerateProof { trusted, target }, SyncEvent::Proved(claim)) => if claim.public_values@
            == encoded(expected_output(trusted, target)@) {
            SyncState::Submit { claim }
        } else {
            aborted(CycleError::ClaimMismatch)
        },
        (SyncState::Submit { .. }, SyncEvent::Submitted(accepted)) => if accepted {
            SyncState::Sleep { outcome: CycleOutcome::Submitted }
        } else {
            aborted(CycleError::SubmissionFailed)
        },
        (_, _) => aborted(CycleError::UnexpectedEvent),
    }
}

impl SyncConfig {
    /// A batching interval is positive.
    pub open spec fn wf(&self) -> bool {
        self.policy matches TargetPolicy::BatchInterval(interval) ==> interval > 0
    }

    /// The configuration, unless the policy is a batching interval of 0.
    pub fn new(policy: TargetPolicy, options: TrustOptions, sleep_seconds: u64) -> (r: Option<SyncConfig>)
        ensures
            r.is_some() == !(policy == TargetPolicy::BatchInterval(0)),
            r.is_some() ==> r.unwrap() == (SyncConfig { policy, options, sleep_seconds })
                && r.unwrap().wf(),
    {
        match policy {
            TargetPolicy::BatchInterval(interval) => {
                if interval == 0 {
                    return None;
                }
            },
            TargetPolicy::ChainTip => {},
        }
        Some(SyncConfig { policy, options, sleep_seconds })
    }

    /// The target height for the chain tip `tip`.
    pub fn pick_target(&self, tip: u64) -> (h: u64)
        requires
            self.wf(),
        ensures
            h == target_height(self.policy, tip),
            h <= tip,
    {
        match self.policy {
            TargetPolicy::ChainTip => tip,
            TargetPolicy::BatchInterval(interval) => {
                assert(tip % interval <= tip) by (nonlinear_arith)
                    requires
                        interval > 0,
                ;
                tip - tip % interval
            },
        }
    }
}

impl SyncState {
    /// The light blocks that await the local check are well formed.
    pub open spec fn inv(&self) -> bool {
        self matches SyncState::LocalVerify { trusted, target } ==> trusted.wf() && target.wf()
    }

    /// Whether the light blocks that await the local check, if any, are
    /// well formed.
    pub fn is_consistent(&self) -> (r: bool)
        ensures
            r == self.inv(),
    {
        match self {
            SyncState::LocalVerify { trusted, target } => trusted.validators.is_well_formed()
                && trusted.next_validators.is_well_formed() && target.validators.is_well_formed()
                && target.next_validators.is_well_formed(),
            _ => true,
        }
    }

    /// The state in which the operator starts.
    pub fn start() -> (s: SyncState)
        ensures
            s == SyncState::ReadTrustedState,
            s.inv(),
    {
        SyncState::ReadTrustedState
    }

    /// What the driver has to do in this state.
    pub fn action(&self, config: &SyncConfig) -> (a: SyncAction)
        ensures
            a == match *self {
                SyncState::ReadTrustedState => SyncAction::ReadTrustedState,
                SyncState::DetermineTarget { .. } => SyncAction::FetchChainTip,
                SyncState::AssembleLightBlocks { trusted_height, target_height } => SyncAction::AssembleLightBlocks {
                    trusted_height,
                    target_height,
                },
                SyncState::LocalVerify { .. } => SyncAction::Verify,
                SyncState::GenerateProof { .. } => SyncAction::GenerateProof,
                SyncState::Submit { .. } => SyncAction::Submit,
                SyncState::Sleep { .. } => SyncAction::Sleep { seconds: config.sleep_seconds },
                SyncState::Halted(error) => SyncAction::Halt(error),
            },
    {
        match self {
            SyncState::ReadTrustedState => SyncAction::ReadTrustedState,
            SyncState::DetermineTarget { .. } => SyncAction::FetchChainTip,
            SyncState::AssembleLightBlocks { trusted_height, target_height } => SyncAction::AssembleLightBlocks {
                trusted_height: *trusted_height,
                target_height: *target_height,
            },
            SyncState::LocalVerify { .. } => SyncAction::Verify,
            SyncState::GenerateProof { .. } => SyncAction::GenerateProof,
            SyncState::Submit { .. } => SyncAction::Submit,
            SyncState::Sleep { .. } => SyncAction::Sleep { seconds: config.sleep_seconds },
            SyncState::Halted(error) => SyncAction::Halt(*error),
        }
    }

    /// Takes in the result of the state's action.
    pub fn step(self, event: SyncEvent, config: &SyncConfig) -> (next: SyncState)
        requires
            self.inv(),
            config.wf(),
        ensures
            next == next_state(self, event, *config),
            next.inv(),
    {
        match self {
            SyncState::Halted(error) => SyncState::Halted(error),
            SyncState::Sleep { outcome } => match event {
                SyncEvent::Woke => SyncState::ReadTrustedState,
                _ => SyncState::Sleep { outcome },
            },
            SyncState::ReadTrustedState => match event {
                SyncEvent::TrustedHeight(None) => SyncState::Halted(FatalError::UnresolvedTrustedHeight),
                SyncEvent::TrustedHeight(Some(height)) => {
                    if height == 0 {
                        SyncState::Halted(FatalError::NoTrustedHeight)
                    } else {
                        SyncState::DetermineTarget { trusted_height: height }
                    }
                },
                _ => abort(CycleError::UnexpectedEvent),
            },
            SyncState::DetermineTarget { trusted_height } => match event {
                SyncEvent::ChainTip(None) => abort(CycleError::ChainTipUnavailable),
                SyncEvent::ChainTip(Some(tip)) => {
                    let target_height = config.pick_target(tip);
                    if trusted_height < target_height {
                        SyncState::AssembleLightBlocks { trusted_height, target_height }
                    } else {
                        SyncState::Sleep { outcome: CycleOutcome::UpToDate }
                    }
                },
                _ => abort(CycleError::UnexpectedEvent),
            },
            SyncState::AssembleLightBlocks { trusted_height, target_height } => match event {
                SyncEvent::AssemblyFailed => abort(CycleError::AssemblyFailed),
                SyncEvent::LightBlocks { trusted, target } => {
                    if trusted.validators.is_well_formed() && trusted.next_validators.is_well_formed()
                        && target.validators.is_well_formed() && target.next_validators.is_well_formed()
                        && trusted.height() == trusted_height && target.height() == target_height {
                        SyncState::LocalVerify { trusted, target }
                    } else {
                        abort(CycleError::AssemblyFailed)
                    }
                },
                _ => abort(CycleError::UnexpectedEvent),
            },
            SyncState::LocalVerify { trusted, target } => match event {
                SyncEvent::Continue => {
                    let verdict = verify_with_skew(&trusted, &target, &config.options);
                    match verdict {
                        Verdict::Success => SyncState::GenerateProof { trusted, target },
                        _ => abort(CycleError::VerificationFailed(verdict)),
                    }
                },
                _ => abort(CycleError::UnexpectedEvent),
            },
            SyncState::GenerateProof { trusted, target } => match event {
                SyncEvent::ProvingFailed => abort(CycleError::ProvingFailed),
                SyncEvent::Proved(claim) => {
                    if public_values_match(claim.public_values.as_slice(), &trusted, &target) {
                        SyncState::Submit { claim }
                    } else {
                        abort(CycleError::ClaimMismatch)
                    }
                },
                _ => abort(CycleError::UnexpectedEvent),
            },
            SyncState::Submit { claim } => match event {
                SyncEvent::Submitted(accepted) => {
                    if accepted {
                        SyncState::Sleep { outcome: CycleOutcome::Submitted }
                    } else {
                        abort(CycleError::SubmissionFailed)
                    }
                },
                _ => abort(CycleError::UnexpectedEvent),
            },
        }
    }
}

fn abort(error: CycleError) -> (s: SyncState)
    ensures
        s == aborted(error),
{
    SyncState::Sleep { outcome: CycleOutcome::Aborted(error) }
}

/// `claim` carries the public values of the update from `trusted` to
/// `target`, and that update passes the local check.
pub open spec fn claims_checked_update(
    claim: ProofClaim,
    trusted: LightBlock,
    target: LightBlock,
    config: SyncConfig,
) -> bool {
    &&& local_verdict(trusted, target, config) == Verdict::Success
    &&& claim.public_values@ == encoded(expected_output(trusted, target)@)
}

/// What holds of every state that the operator reaches: light blocks that
/// await the local check are well formed; light blocks that are to be
/// proved have passed it; and a claim that is to be submitted carries the
/// public values of an update that has passed it.
pub open spec fn is_sound(state: SyncState, config: SyncConfig) -> bool {
    match state {
        SyncState::LocalVerify { trusted, target } => trusted.wf() && target.wf(),
        SyncState::GenerateProof { trusted, target } => local_verdict(trusted, target, config)
            == Verdict::Success,
        SyncState::Submit { claim } => exists|trusted: LightBlock, target: LightBlock| #[trigger]
            claims_checked_update(claim, trusted, target, config),
        _ => true,
    }
}

/// `states` is a run of the operator under `events`: it starts by reading
/// the trusted state, and each event leads from one state to the next.
pub open spec fn is_run(states: Seq<SyncState>, events: Seq<SyncEvent>, config: SyncConfig) -> bool {
    &&& states.len() == events.len() + 1
    &&& states[0] == SyncState::ReadTrustedState
    &&& forall|i: int|
        0 <= i < events.len() ==> #[trigger] states[i + 1] == next_state(states[i], events[i], config)
}

/// A step keeps what holds of every reached state.
pub proof fn lemma_step_keeps_soundness(state: SyncState, event: SyncEvent, config: SyncConfig)
    requires
        is_sound(state, config),
    ensures
        is_sound(next_state(state, event, config), config),
{
    let next = next_state(state, event, config);
    match next {
        SyncState::LocalVerify { trusted, target } => {
            assert(trusted.wf() && target.wf());
        },
        SyncState::GenerateProof { trusted, target } => {
            assert(state == (SyncState::LocalVerify { trusted, target }));
            assert(local_verdict(trusted, target, config) == Verdict::Success);
        },
        SyncState::Submit { claim } => {
            assert(state is GenerateProof);
            assert(claims_checked_update(
                claim,
                state->GenerateProof_trusted,
                state->GenerateProof_target,
                config,
            ));
        },
        _ => {},
    }
}

/// Whatever the events, every state of a run is sound.
pub proof fn lemma_run_is_sound(
    states: Seq<SyncState>,
    events: Seq<SyncEvent>,
    config: SyncConfig,
    k: int,
)
    requires
        is_run(states, events, config),
        0 <= k < states.len(),
    ensures
        is_sound(states[k], config),
    decreases k,
{
    if k > 0 {
        lemma_run_is_sound(states, events, config, k - 1);
        assert(states[k - 1 + 1] == next_state(states[k - 1], events[k - 1], config));
        lemma_step_keeps_soundness(states[k - 1], events[k - 1], config);
    }
}

/// No unverified claim is ever submitted: whatever the events, a claim
/// that the operator is about to submit carries the public values of an
/// update that passed the local check.
pub proof fn lemma_only_verified_claims_are_submitted(
    states: Seq<SyncState>,
    events: Seq<SyncEvent>,
    config: SyncConfig,
    k: int,
)
    requires
        is_run(states, events, config),
        0 <= k < states.len(),
        states[k] is Submit,
    ensures
        exists|trusted: LightBlock, target: LightBlock| #[trigger]
            claims_checked_update(states[k]->Submit_claim, trusted, target, config),
{
    lemma_run_is_sound(states, events, config, k);
}

/// The place of a state in the cycle: from 0, where the trusted state is
/// read, to 6, where the cycle has ended.
pub open spec fn place(state: SyncState) -> int {
    match state {
        SyncState::ReadTrustedState => 0,
        SyncState::DetermineTarget { .. } => 1,
        SyncState::AssembleLightBlocks { .. } => 2,
        SyncState::LocalVerify { .. } => 3,
        SyncState::GenerateProof { .. } => 4,
        SyncState::Submit { .. } => 5,
        SyncState::Sleep { .. } => 6,
        SyncState::Halted(_) => 6,
    }
}

/// No stage hangs: whatever the event, a cycle that has not ended moves on
/// to a later stage, so it ends, asleep or halted, within six steps.
pub proof fn lemma_each_step_advances_the_cycle(state: SyncState, event: SyncEvent, config: SyncConfig)
    requires
        place(state) < 6,
    ensures
        place(state) < place(next_state(state, event, config)) <= 6,
{
}

/// A new cycle starts only from sleep, when the delay has passed, and it
/// starts by reading the trusted state afresh.
pub proof fn lemma_cycle_starts_after_sleep(state: SyncState, event: SyncEvent, config: SyncConfig)
    ensures
        state is Sleep && event is Woke ==> next_state(state, event, config)
            == SyncState::ReadTrustedState,
        next_state(state, event, config) is ReadTrustedState ==> state is Sleep && event is Woke,
{
}

/// No proof is asked for unless the local check succeeded: a step leads to
/// `GenerateProof` only from `LocalVerify`, with the verdict `Success` on
/// the very light blocks that are then proved.
pub proof fn lemma_proof_only_after_successful_check(
    state: SyncState,
    event: SyncEvent,
    config: SyncConfig,
)
    requires
        next_state(state, event, config) is GenerateProof,
    ensures
        state matches SyncState::LocalVerify { trusted, target } && local_verdict(
            trusted,
            target,
            config,
        ) == Verdict::Success && next_state(state, event, config) == (SyncState::GenerateProof {
            trusted,
            target,
        }),
{
}

/// Nothing is submitted but a claim whose public values are those of the
/// update that was checked and proved.
pub proof fn lemma_submit_only_matching_claim(state: SyncState, event: SyncEvent, config: SyncConfig)
    requires
        next_state(state, event, config) is Submit,
    ensures
        state matches SyncState::GenerateProof { trusted, target } && next_state(
            state,
            event,
            config,
        )->Submit_claim.public_values@ == encoded(expected_output(trusted, target)@),
{
}

/// A fatal misconfiguration is final, and it arises only when the trusted
/// state is read.
pub proof fn lemma_halt_is_final(state: SyncState, event: SyncEvent, config: SyncConfig)
    ensures
        state is Halted ==> next_state(state, event, config) == state,
        next_state(state, event, config) is Halted ==> state is Halted || state is ReadTrustedState,
{
}

/// The target height never exceeds the tip and, under a batching interval,
/// is the largest multiple of the interval that does not.
pub proof fn lemma_target_height_is_nearest_multiple(interval: u64, tip: u64)
    requires
        interval > 0,
    ensures
        target_height(TargetPolicy::BatchInterval(interval), tip) <= tip,
        target_height(TargetPolicy::BatchInterval(interval), tip) % interval == 0,
        tip - target_height(TargetPolicy::BatchInterval(interval), tip) < interval,
{
    let t = tip as int;
    let n = interval as int;
    assert(t == n * (t / n) + t % n && 0 <= t % n < n) by (nonlinear_arith)
        requires
            n > 0,
            t >= 0,
    ;
    assert((n * (t / n)) % n == 0) by (nonlinear_arith)
        requires
            n > 0,
    ;
}

} // verus!
