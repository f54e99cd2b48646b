use tendermint_operator::calldata::ProofClaim;
use tendermint_operator::header_verifier::{TrustOptions, Verdict};
use tendermint_operator::public_values::TendermintOutput;
use tendermint_operator::sync::{
    CycleError, CycleOutcome, FatalError, SyncAction, SyncConfig, SyncEvent, SyncState,
    TargetPolicy,
};
use tendermint_operator::types::{
    Commit, CommitSig, Header, LightBlock, SignedHeader, Validator, ValidatorSet,
};

const SECOND: u64 = 1_000_000_000;

fn addr(n: u8) -> [u8; 20] {
    [n; 20]
}

fn set() -> ValidatorSet {
    let validators: Vec<Validator> =
        (1..=4).map(|n| Validator { address: addr(n), power: 10 }).collect();
    ValidatorSet::new(validators, [7u8; 32]).unwrap()
}

fn block(height: u64, signers: &[u8]) -> LightBlock {
    LightBlock::new(
        SignedHeader {
            header: Header {
                height,
                time: height * SECOND,
                hash: [height as u8; 32],
                validators_hash: [7u8; 32],
                next_validators_hash: [7u8; 32],
            },
            commit: Commit {
                signatures: signers
                    .iter()
                    .map(|n| CommitSig::Commit { validator_address: addr(*n) })
                    .collect(),
            },
        },
        set(),
        set(),
        addr(9),
    )
}

fn config(policy: TargetPolicy) -> SyncConfig {
    SyncConfig::new(policy, TrustOptions::with_trusting_period(14 * 24 * 3600 * SECOND), 60).unwrap()
}

fn aborted(error: CycleError) -> SyncState {
    SyncState::Sleep { outcome: CycleOutcome::Aborted(error) }
}

#[test]
fn a_full_cycle_submits_the_claim_and_sleeps() {
    let cfg = config(TargetPolicy::ChainTip);
    let s = SyncState::start();
    assert_eq!(s.action(&cfg), SyncAction::ReadTrustedState);
    let s = s.step(SyncEvent::TrustedHeight(Some(100)), &cfg);
    assert_eq!(s, SyncState::DetermineTarget { trusted_height: 100 });
    assert_eq!(s.action(&cfg), SyncAction::FetchChainTip);
    let s = s.step(SyncEvent::ChainTip(Some(110)), &cfg);
    assert_eq!(s, SyncState::AssembleLightBlocks { trusted_height: 100, target_height: 110 });
    assert_eq!(
        s.action(&cfg),
        SyncAction::AssembleLightBlocks { trusted_height: 100, target_height: 110 }
    );
    let trusted = block(100, &[1, 2, 3, 4]);
    let target = block(110, &[1, 2, 3, 4]);
    let s = s.step(SyncEvent::LightBlocks { trusted: trusted.clone(), target: target.clone() }, &cfg);
    assert_eq!(s, SyncState::LocalVerify { trusted: trusted.clone(), target: target.clone() });
    assert_eq!(s.action(&cfg), SyncAction::Verify);
    let s = s.step(SyncEvent::Continue, &cfg);
    assert_eq!(s, SyncState::GenerateProof { trusted: trusted.clone(), target: target.clone() });
    assert_eq!(s.action(&cfg), SyncAction::GenerateProof);
    let public_values = TendermintOutput {
        trusted_height: 100,
        target_height: 110,
        trusted_header_hash: [100u8; 32],
        target_header_hash: [110u8; 32],
    }
    .abi_encode();
    let claim = ProofClaim { public_values, proof: vec![1, 2, 3] };
    let s = s.step(SyncEvent::Proved(claim.clone()), &cfg);
    assert_eq!(s, SyncState::Submit { claim });
    assert_eq!(s.action(&cfg), SyncAction::Submit);
    let s = s.step(SyncEvent::Submitted(true), &cfg);
    assert_eq!(s, SyncState::Sleep { outcome: CycleOutcome::Submitted });
    assert_eq!(s.action(&cfg), SyncAction::Sleep { seconds: 60 });
    let s = s.step(SyncEvent::Woke, &cfg);
    assert_eq!(s, SyncState::ReadTrustedState);
}

#[test]
fn insufficient_trust_ends_the_cycle_before_proving() {
    let cfg = config(TargetPolicy::ChainTip);
    let s = SyncState::LocalVerify { trusted: block(100, &[1, 2, 3, 4]), target: block(110, &[1]) };
    let s = s.step(SyncEvent::Continue, &cfg);
    assert_eq!(s, aborted(CycleError::VerificationFailed(Verdict::InsufficientTrust)));
    assert_eq!(s.action(&cfg), SyncAction::Sleep { seconds: 60 });
    let s = s.step(SyncEvent::Proved(ProofClaim { public_values: vec![], proof: vec![] }), &cfg);
    assert_eq!(s, aborted(CycleError::VerificationFailed(Verdict::InsufficientTrust)));
    let s = s.step(SyncEvent::Submitted(true), &cfg);
    assert_eq!(s, aborted(CycleError::VerificationFailed(Verdict::InsufficientTrust)));
}

#[test]
fn a_trusted_height_of_zero_is_fatal() {
    let cfg = config(TargetPolicy::ChainTip);
    let s = SyncState::start().step(SyncEvent::TrustedHeight(Some(0)), &cfg);
    assert_eq!(s, SyncState::Halted(FatalError::NoTrustedHeight));
    assert_eq!(s.action(&cfg), SyncAction::Halt(FatalError::NoTrustedHeight));
    let s = s.step(SyncEvent::Woke, &cfg);
    assert_eq!(s, SyncState::Halted(FatalError::NoTrustedHeight));
}

#[test]
fn an_unresolved_trusted_height_is_fatal() {
    let cfg = config(TargetPolicy::ChainTip);
    let s = SyncState::start().step(SyncEvent::TrustedHeight(None), &cfg);
    assert_eq!(s, SyncState::Halted(FatalError::UnresolvedTrustedHeight));
    let s = s.step(SyncEvent::TrustedHeight(Some(5)), &cfg);
    assert_eq!(s, SyncState::Halted(FatalError::UnresolvedTrustedHeight));
}

#[test]
fn the_batching_policy_rounds_the_tip_down() {
    let cfg = config(TargetPolicy::BatchInterval(10));
    assert_eq!(cfg.pick_target(0), 0);
    assert_eq!(cfg.pick_target(9), 0);
    assert_eq!(cfg.pick_target(10), 10);
    assert_eq!(cfg.pick_target(119), 110);
    assert_eq!(cfg.pick_target(u64::MAX), u64::MAX - 5);
    assert_eq!(config(TargetPolicy::BatchInterval(1)).pick_target(77), 77);
    assert_eq!(config(TargetPolicy::ChainTip).pick_target(119), 119);
    let s = SyncState::DetermineTarget { trusted_height: 100 }.step(SyncEvent::ChainTip(Some(119)), &cfg);
    assert_eq!(s, SyncState::AssembleLightBlocks { trusted_height: 100, target_height: 110 });
}

#[test]
fn a_batching_interval_of_zero_is_no_configuration() {
    let options = TrustOptions::with_trusting_period(1);
    assert_eq!(SyncConfig::new(TargetPolicy::BatchInterval(0), options, 10), None);
    assert_eq!(
        SyncConfig::new(TargetPolicy::BatchInterval(1), options, 10),
        Some(SyncConfig { policy: TargetPolicy::BatchInterval(1), options, sleep_seconds: 10 })
    );
}

#[test]
fn a_target_at_or_below_the_trusted_height_ends_the_cycle() {
    let tip = config(TargetPolicy::ChainTip);
    let s = SyncState::DetermineTarget { trusted_height: 100 }.step(SyncEvent::ChainTip(Some(100)), &tip);
    assert_eq!(s, SyncState::Sleep { outcome: CycleOutcome::UpToDate });
    let batch = config(TargetPolicy::BatchInterval(10));
    let s = SyncState::DetermineTarget { trusted_height: 100 }.step(SyncEvent::ChainTip(Some(109)), &batch);
    assert_eq!(s, SyncState::Sleep { outcome: CycleOutcome::UpToDate });
    let s = SyncState::DetermineTarget { trusted_height: 100 }.step(SyncEvent::ChainTip(Some(99)), &tip);
    assert_eq!(s, SyncState::Sleep { outcome: CycleOutcome::UpToDate });
}

#[test]
fn failures_end_the_cycle_without_stopping_the_operator() {
    let cfg = config(TargetPolicy::ChainTip);
    let s = SyncState::DetermineTarget { trusted_height: 100 }.step(SyncEvent::ChainTip(None), &cfg);
    assert_eq!(s, aborted(CycleError::ChainTipUnavailable));
    let s = SyncState::AssembleLightBlocks { trusted_height: 100, target_height: 110 }
        .step(SyncEvent::AssemblyFailed, &cfg);
    assert_eq!(s, aborted(CycleError::AssemblyFailed));
    let s = SyncState::GenerateProof { trusted: block(1, &[]), target: block(2, &[]) }
        .step(SyncEvent::ProvingFailed, &cfg);
    assert_eq!(s, aborted(CycleError::ProvingFailed));
    let s = SyncState::Submit { claim: ProofClaim { public_values: vec![], proof: vec![] } }
        .step(SyncEvent::Submitted(false), &cfg);
    assert_eq!(s, aborted(CycleError::SubmissionFailed));
    assert_eq!(s.step(SyncEvent::Woke, &cfg), SyncState::ReadTrustedState);
}

#[test]
fn light_blocks_of_other_heights_end_the_cycle() {
    let cfg = config(TargetPolicy::ChainTip);
    let state = SyncState::AssembleLightBlocks { trusted_height: 100, target_height: 110 };
    let s = state.clone().step(
        SyncEvent::LightBlocks { trusted: block(100, &[1]), target: block(111, &[1]) },
        &cfg,
    );
    assert_eq!(s, aborted(CycleError::AssemblyFailed));
    let s = state.clone().step(
        SyncEvent::LightBlocks { trusted: block(99, &[1]), target: block(110, &[1]) },
        &cfg,
    );
    assert_eq!(s, aborted(CycleError::AssemblyFailed));
    let mut broken = block(110, &[1]);
    broken.validators.validators.push(Validator { address: addr(1), power: 1 });
    let s = state.step(SyncEvent::LightBlocks { trusted: block(100, &[1]), target: broken }, &cfg);
    assert_eq!(s, aborted(CycleError::AssemblyFailed));
}

#[test]
fn a_claim_for_another_update_is_not_submitted() {
    let cfg = config(TargetPolicy::ChainTip);
    let state = SyncState::GenerateProof {
        trusted: block(100, &[1, 2, 3, 4]),
        target: block(110, &[1, 2, 3, 4]),
    };
    let other = TendermintOutput {
        trusted_height: 100,
        target_height: 111,
        trusted_header_hash: [100u8; 32],
        target_header_hash: [110u8; 32],
    }
    .abi_encode();
    let s = state.clone().step(SyncEvent::Proved(ProofClaim { public_values: other, proof: vec![] }), &cfg);
    assert_eq!(s, aborted(CycleError::ClaimMismatch));
    let s = state.step(SyncEvent::Proved(ProofClaim { public_values: vec![0; 12], proof: vec![] }), &cfg);
    assert_eq!(s, aborted(CycleError::ClaimMismatch));
}

#[test]
fn an_event_out_of_turn_ends_the_cycle() {
    let cfg = config(TargetPolicy::ChainTip);
    assert_eq!(
        SyncState::start().step(SyncEvent::ChainTip(Some(5)), &cfg),
        aborted(CycleError::UnexpectedEvent)
    );
    assert_eq!(
        SyncState::DetermineTarget { trusted_height: 1 }.step(SyncEvent::Continue, &cfg),
        aborted(CycleError::UnexpectedEvent)
    );
    assert_eq!(
        SyncState::LocalVerify { trusted: block(1, &[]), target: block(2, &[]) }
            .step(SyncEvent::Submitted(true), &cfg),
        aborted(CycleError::UnexpectedEvent)
    );
    assert_eq!(
        SyncState::Submit { claim: ProofClaim { public_values: vec![], proof: vec![] } }
            .step(SyncEvent::Woke, &cfg),
        aborted(CycleError::UnexpectedEvent)
    );
}

#[test]
fn an_expired_update_is_not_proved() {
    let cfg = SyncConfig::new(TargetPolicy::ChainTip, TrustOptions::with_trusting_period(5 * SECOND), 10)
        .unwrap();
    let s = SyncState::LocalVerify { trusted: block(100, &[1, 2]), target: block(110, &[1, 2]) }
        .step(SyncEvent::Continue, &cfg);
    assert_eq!(s, aborted(CycleError::VerificationFailed(Verdict::Expired)));
}

#[test]
fn a_state_is_consistent_unless_it_checks_malformed_blocks() {
    assert!(SyncState::start().is_consistent());
    assert!(SyncState::LocalVerify { trusted: block(1, &[1]), target: block(2, &[1]) }.is_consistent());
    let mut broken = block(2, &[1]);
    broken.next_validators.validators.push(Validator { address: addr(1), power: 1 });
    assert!(!SyncState::LocalVerify { trusted: block(1, &[1]), target: broken.clone() }.is_consistent());
    assert!(SyncState::GenerateProof { trusted: block(1, &[1]), target: broken }.is_consistent());
}
