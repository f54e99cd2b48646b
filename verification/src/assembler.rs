//! Assembly of a light block for one height.
//!
//! The caller performs the fetch that the assembler asks for and hands the
//! node's answer back as an event; the assembler checks it and either asks
//! for the next fetch, holds the finished light block, or has failed at a
//! stage. The signed header comes first, then the pages of the validator
//! set of the height, then those of the next height.

use vstd::prelude::*;
use crate::pagination::{
    BlockValidatorSet, MAX_VALIDATOR_PAGES, PageEffect, PageRequest, PagerOutcome, PaginationError,
    ValidatorPager, page_effect,
};
use crate::signatures::{
    is_power_sorted, is_sorted_by_power, lemma_sorted_signatures_descend,
    sort_signatures_by_validators_power_desc,
};
use crate::types::{
    LightBlock, SignedHeader, Validator, ValidatorSet, total_power,
    unique_addresses,
};

verus! {

/// The steps of an assembly.
#[derive(Clone, Copy, Debug, PartialEq, Eq, Structural)]
pub enum AssemblyStage {
    /// Fetching the signed header.
    Commit,
    /// Fetching the validator set of the height.
    Validators,
    /// Fetching the validator set of the next height.
    NextValidators,
}

/// What went wrong at a stage.
#[derive(Clone, Copy, Debug, PartialEq, Eq, Structural)]
pub enum AssemblyFault {
    /// The fetch failed.
    FetchFailed,
    /// The signed header is not of the height asked for.
    HeightMismatch,
    /// The validator listing is inconsistent.
    Pagination(PaginationError),
    /// The voting powers of the set add up to more than 64 bits hold.
    PowerOverflow,
    /// There is no next height.
    HeightOverflow,
    /// The event is not the answer to the pending request.
    UnexpectedEvent,
}

/// A failed assembly, tagged with the stage at which it failed.
#[derive(Clone, Copy, Debug, PartialEq, Eq, Structural)]
pub struct AssemblyError {
    pub stage: AssemblyStage,
    pub fault: AssemblyFault,
}

/// The fetch that is due.
#[derive(Clone, Copy, Debug, PartialEq, Eq, Structural)]
pub enum AssemblyRequest {
    /// The commit of the height.
    Commit { height: u64 },
    /// One page of a validator listing.
    Validators(PageRequest),
}

/// The result of a fetch.
#[derive(Clone, Debug, PartialEq, Eq)]
pub enum AssemblyEvent {
    Commit(SignedHeader),
    ValidatorPage(BlockValidatorSet),
    FetchFailed,
}

/// How far an assembly has come.
#[derive(Clone, Debug, PartialEq, Eq)]
pub enum AssemblyState {
    AwaitingCommit,
    AwaitingValidators { signed_header: SignedHeader, pager: ValidatorPager },
    AwaitingNextValidators { signed_header: SignedHeader, validators: ValidatorSet, pager: ValidatorPager },
    Assembled(LightBlock),
    Failed(AssemblyError),
}

/// The assembly of the light block of `height`.
#[derive(Clone, Debug, PartialEq, Eq)]
pub struct LightBlockAssembler {
    pub height: u64,
    pub peer_id: [u8; 20],
    pub state: AssemblyState,
}

impl AssemblyState {
    /// The stage that the state waits at; none once the assembly has ended.
    pub open spec fn stage(self) -> Option<AssemblyStage> {
        match self {
            AssemblyState::AwaitingCommit => Some(AssemblyStage::Commit),
            AssemblyState::AwaitingValidators { .. } => Some(AssemblyStage::Validators),
            AssemblyState::AwaitingNextValidators { .. } => Some(AssemblyStage::NextValidators),
            _ => None,
        }
    }
}

/// The failed state that a fault at the stage of `state` gives.
pub open spec fn failure(state: AssemblyState, fault: AssemblyFault) -> AssemblyState {
    match state.stage() {
        Some(stage) => AssemblyState::Failed(AssemblyError { stage, fault }),
        None => state,
    }
}

/// `pager` is `before` one page on, with `all` collected.
pub open spec fn advanced(before: ValidatorPager, all: Seq<Validator>, pager: ValidatorPager) -> bool {
    &&& pager.height == before.height
    &&& pager.page_index == before.page_index + 1
    &&& pager.collected@ == all
}

/// `pager` is at the first page of `height`, with nothing collected.
pub open spec fn fresh(height: int, pager: ValidatorPager) -> bool {
    &&& pager.height == height
    &&& pager.page_index == 1
    &&& pager.collected@ == Seq::<Validator>::empty()
}

/// `set` holds the validators `all` under the hash `hash`.
pub open spec fn holds(set: ValidatorSet, all: Seq<Validator>, hash: [u8; 32]) -> bool {
    set.validators@ == all && set.hash == hash
}

/// The state that a page of the validators of the height leads to.
pub open spec fn validators_step(
    height: u64,
    signed_header: SignedHeader,
    pager: ValidatorPager,
    page: BlockValidatorSet,
    next: AssemblyState,
) -> bool {
    match page_effect(pager, page) {
        PageEffect::Failed(error) => next == AssemblyState::Failed(
            AssemblyError { stage: AssemblyStage::Validators, fault: AssemblyFault::Pagination(error) },
        ),
        PageEffect::Continue(all) => {
            &&& next matches AssemblyState::AwaitingValidators { signed_header: header, pager: later }
            &&& header == signed_header
            &&& advanced(pager, all, later)
        },
        PageEffect::Complete(all) => if total_power(all) > u64::MAX {
            next == AssemblyState::Failed(
                AssemblyError { stage: AssemblyStage::Validators, fault: AssemblyFault::PowerOverflow },
            )
        } else if height == u64::MAX {
            next == AssemblyState::Failed(
                AssemblyError {
                    stage: AssemblyStage::NextValidators,
                    fault: AssemblyFault::HeightOverflow,
                },
            )
        } else {
            &&& next matches AssemblyState::AwaitingNextValidators {
                signed_header: header,
                validators,
                pager: later,
            }
            &&& header == signed_header
            &&& holds(validators, all, signed_header.header.validators_hash)
            &&& fresh(height + 1, later)
        },
    }
}

/// The state that a page of the validators of the next height leads to.
pub open spec fn next_validators_step(
    peer_id: [u8; 20],
    signed_header: SignedHeader,
    validators: ValidatorSet,
    pager: ValidatorPager,
    page: BlockValidatorSet,
    next: AssemblyState,
) -> bool {
    match page_effect(pager, page) {
        PageEffect::Failed(error) => next == AssemblyState::Failed(
            AssemblyError {
                stage: AssemblyStage::NextValidators,
                fault: AssemblyFault::Pagination(error),
            },
        ),
        PageEffect::Continue(all) => {
            &&& next matches AssemblyState::AwaitingNextValidators {
                signed_header: header,
                validators: same,
                pager: later,
            }
            &&& header == signed_header
            &&& same == validators
            &&& advanced(pager, all, later)
        },
        PageEffect::Complete(all) => if total_power(all) > u64::MAX {
            next == AssemblyState::Failed(
                AssemblyError {
                    stage: AssemblyStage::NextValidators,
                    fault: AssemblyFault::PowerOverflow,
                },
            )
        } else {
            &&& next matches AssemblyState::Assembled(block)
            &&& block.signed_header.header == signed_header.header
            &&& is_sorted_by_power(
                signed_header.commit.signatures@,
                block.signed_header.commit.signatures@,
                validators.validators@,
            )
            &&& block.validators == validators
            &&& holds(block.next_validators, all, signed_header.header.next_validators_hash)
            &&& block.peer_id == peer_id
        },
    }
}

/// The state that `event` leads to from `state`, in the assembly for
/// `height` and `peer_id`.
pub open spec fn steps_to(
    height: u64,
    peer_id: [u8; 20],
    state: AssemblyState,
    event: AssemblyEvent,
    next: AssemblyState,
) -> bool {
    match (state, event) {
        (AssemblyState::Assembled(_), _) => next == state,
        (AssemblyState::Failed(_), _) => next == state,
        (_, AssemblyEvent::FetchFailed) => next == failure(state, AssemblyFault::FetchFailed),
        (AssemblyState::AwaitingCommit, AssemblyEvent::Commit(signed_header)) => {
            if signed_header.header.height == height {
                &&& next matches AssemblyState::AwaitingValidators { signed_header: header, pager }
                &&& header == signed_header
                &&& fresh(height as int, pager)
            } else {
                next == failure(state, AssemblyFault::HeightMismatch)
            }
        },
        (AssemblyState::AwaitingValidators { signed_header, pager }, AssemblyEvent::ValidatorPage(page)) => {
            validators_step(height, signed_header, pager, page, next)
        },
        (
            AssemblyState::AwaitingNextValidators { signed_header, validators, pager },
            AssemblyEvent::ValidatorPage(page),
        ) => next_validators_step(peer_id, signed_header, validators, pager, page, next),
        (_, _) => next == failure(state, AssemblyFault::UnexpectedEvent),
    }
}

impl LightBlockAssembler {
    /// What holds of every state that the assembler reaches: a header that
    /// it holds is of the height asked for; a pager that it holds collects
    /// the set that is due; a validator set that it holds is well formed
    /// and carries the hash that the header commits to; and a finished
    /// light block has its signatures sorted by descending power.
    pub open spec fn inv(&self) -> bool {
        match self.state {
            AssemblyState::AwaitingCommit => true,
            AssemblyState::AwaitingValidators { signed_header, pager } => {
                &&& signed_header.header.height == self.height
                &&& pager.wf()
                &&& pager.height == self.height
            },
            AssemblyState::AwaitingNextValidators { signed_header, validators, pager } => {
                &&& signed_header.header.height == self.height
                &&& validators.wf()
                &&& validators.hash == signed_header.header.validators_hash
                &&& pager.wf()
                &&& pager.height == self.height + 1
            },
            AssemblyState::Assembled(block) => {
                &&& block.signed_header.header.height == self.height
                &&& block.wf()
                &&& block.validators.hash == block.signed_header.header.validators_hash
                &&& block.next_validators.hash == block.signed_header.header.next_validators_hash
                &&& block.peer_id == self.peer_id
                &&& is_power_sorted(block.signed_header.commit.signatures@, block.validators.validators@)
            },
            AssemblyState::Failed(_) => true,
        }
    }

    /// Starts the assembly of the light block of `height`.
    pub fn new(height: u64, peer_id: [u8; 20]) -> (a: LightBlockAssembler)
        ensures
            a.height == height,
            a.peer_id == peer_id,
            a.state == AssemblyState::AwaitingCommit,
            a.inv(),
    {
        LightBlockAssembler { height, peer_id, state: AssemblyState::AwaitingCommit }
    }

    /// The fetch that is due; none once the assembly has ended.
    pub fn pending(&self) -> (r: Option<AssemblyRequest>)
        ensures
            r == match self.state {
                AssemblyState::AwaitingCommit => Some(AssemblyRequest::Commit { height: self.height }),
                AssemblyState::AwaitingValidators { pager, .. } => Some(
                    AssemblyRequest::Validators(pager.spec_request()),
                ),
                AssemblyState::AwaitingNextValidators { pager, .. } => Some(
                    AssemblyRequest::Validators(pager.spec_request()),
                ),
                _ => None,
            },
    {
        match &self.state {
            AssemblyState::AwaitingCommit => Some(AssemblyRequest::Commit { height: self.height }),
            AssemblyState::AwaitingValidators { pager, .. } => Some(
                AssemblyRequest::Validators(pager.request()),
            ),
            AssemblyState::AwaitingNextValidators { pager, .. } => Some(
                AssemblyRequest::Validators(pager.request()),
            ),
            _ => None,
        }
    }

    /// Takes in the result of the pending fetch.
    pub fn step(self, event: AssemblyEvent) -> (next: LightBlockAssembler)
        requires
            self.inv(),
        ensures
            next.height == self.height,
            next.peer_id == self.peer_id,
            next.inv(),
            steps_to(self.height, self.peer_id, self.state, event, next.state),
    {
        let height = self.height;
        let peer_id = self.peer_id;
        let state = match self.state {
            AssemblyState::Assembled(block) => AssemblyState::Assembled(block),
            AssemblyState::Failed(error) => AssemblyState::Failed(error),
            AssemblyState::AwaitingCommit => match event {
                AssemblyEvent::FetchFailed => fail(AssemblyStage::Commit, AssemblyFault::FetchFailed),
                AssemblyEvent::Commit(signed_header) => {
                    if signed_header.header.height == height {
                        AssemblyState::AwaitingValidators { signed_header, pager: ValidatorPager::new(height) }
                    } else {
                        fail(AssemblyStage::Commit, AssemblyFault::HeightMismatch)
                    }
                },
                AssemblyEvent::ValidatorPage(_) => fail(
                    AssemblyStage::Commit,
                    AssemblyFault::UnexpectedEvent,
                ),
            },
            AssemblyState::AwaitingValidators { signed_header, pager } => match event {
                AssemblyEvent::FetchFailed => fail(
                    AssemblyStage::Validators,
                    AssemblyFault::FetchFailed,
                ),
                AssemblyEvent::ValidatorPage(page) => match pager.absorb(page) {
                    PagerOutcome::Failed(error) => fail(
                        AssemblyStage::Validators,
                        AssemblyFault::Pagination(error),
                    ),
                    PagerOutcome::Continue(later) => AssemblyState::AwaitingValidators {
                        signed_header,
                        pager: later,
                    },
                    PagerOutcome::Complete(all) => {
                        match ValidatorSet::new(all, signed_header.header.validators_hash) {
                            Err(_) => fail(AssemblyStage::Validators, AssemblyFault::PowerOverflow),
                            Ok(validators) => {
                                if height == u64::MAX {
                                    fail(AssemblyStage::NextValidators, AssemblyFault::HeightOverflow)
                                } else {
                                    AssemblyState::AwaitingNextValidators {
                                        signed_header,
                                        validators,
                                        pager: ValidatorPager::new(height + 1),
                                    }
                                }
                            },
                        }
                    },
                },
                AssemblyEvent::Commit(_) => fail(
                    AssemblyStage::Validators,
                    AssemblyFault::UnexpectedEvent,
                ),
            },
            AssemblyState::AwaitingNextValidators { signed_header, validators, pager } => match event {
                AssemblyEvent::FetchFailed => fail(
                    AssemblyStage::NextValidators,
                    AssemblyFault::FetchFailed,
                ),
                AssemblyEvent::ValidatorPage(page) => match pager.absorb(page) {
                    PagerOutcome::Failed(error) => fail(
                        AssemblyStage::NextValidators,
                        AssemblyFault::Pagination(error),
                    ),
                    PagerOutcome::Continue(later) => AssemblyState::AwaitingNextValidators {
                        signed_header,
                        validators,
                        pager: later,
                    },
                    PagerOutcome::Complete(all) => {
                        match ValidatorSet::new(all, signed_header.header.next_validators_hash) {
                            Err(_) => fail(AssemblyStage::NextValidators, AssemblyFault::PowerOverflow),
                            Ok(next_validators) => {
                                let mut sorted_header = signed_header;
                                let _ = sort_signatures_by_validators_power_desc(
                                    &mut sorted_header,
                                    &validators,
                                );
                                AssemblyState::Assembled(
                                    LightBlock::new(sorted_header, validators, next_validators, peer_id),
                                )
                            },
                        }
                    },
                },
                AssemblyEvent::Commit(_) => fail(
                    AssemblyStage::NextValidators,
                    AssemblyFault::UnexpectedEvent,
                ),
            },
        };
        LightBlockAssembler { height, peer_id, state }
    }

    /// The outcome of an assembly that has ended; none while a fetch is
    /// still due.
    pub fn into_result(self) -> (r: Option<Result<LightBlock, AssemblyError>>)
        ensures
            r == match self.state {
                AssemblyState::Assembled(block) => Some(Ok(block)),
                AssemblyState::Failed(error) => Some(Err(error)),
                _ => None::<Result<LightBlock, AssemblyError>>,
            },
    {
        match self.state {
            AssemblyState::Assembled(block) => Some(Ok(block)),
            AssemblyState::Failed(error) => Some(Err(error)),
            _ => None,
        }
    }
}

fn fail(stage: AssemblyStage, fault: AssemblyFault) -> (s: AssemblyState)
    ensures
        s == AssemblyState::Failed(AssemblyError { stage, fault }),
{
    AssemblyState::Failed(AssemblyError { stage, fault })
}

/// `after` follows `before` on `event`.
pub open spec fn follows(
    before: LightBlockAssembler,
    event: AssemblyEvent,
    after: LightBlockAssembler,
) -> bool {
    &&& after.height == before.height
    &&& after.peer_id == before.peer_id
    &&& steps_to(before.height, before.peer_id, before.state, event, after.state)
}

/// `states` is a run of an assembler under `events`: it starts awaiting the
/// commit, and each event leads from one state to the next.
pub open spec fn is_run(states: Seq<LightBlockAssembler>, events: Seq<AssemblyEvent>) -> bool {
    &&& states.len() == events.len() + 1
    &&& states[0].state == AssemblyState::AwaitingCommit
    &&& forall|i: int|
        0 <= i < events.len() ==> follows(#[trigger] states[i], events[i], states[i + 1])
}

/// A step keeps the invariant.
pub proof fn lemma_step_keeps_invariant(
    before: LightBlockAssembler,
    event: AssemblyEvent,
    after: LightBlockAssembler,
)
    requires
        before.inv(),
        follows(before, event, after),
    ensures
        after.inv(),
{
    match (before.state, event) {
        (
            AssemblyState::AwaitingNextValidators { signed_header, validators, pager },
            AssemblyEvent::ValidatorPage(page),
        ) => {
            if let AssemblyState::Assembled(block) = after.state {
                lemma_sorted_signatures_descend(
                    signed_header.commit.signatures@,
                    block.signed_header.commit.signatures@,
                    validators.validators@,
                );
            }
        },
        _ => {},
    }
}

/// Every state of a run meets the invariant and is of the height that the
/// run started for.
pub proof fn lemma_run_keeps_invariant(
    states: Seq<LightBlockAssembler>,
    events: Seq<AssemblyEvent>,
    k: int,
)
    requires
        is_run(states, events),
        0 <= k < states.len(),
    ensures
        states[k].inv(),
        states[k].height == states[0].height,
        states[k].peer_id == states[0].peer_id,
    decreases k,
{
    if k > 0 {
        lemma_run_keeps_invariant(states, events, k - 1);
        assert(follows(states[k - 1], events[k - 1], states[k]));
        lemma_step_keeps_invariant(states[k - 1], events[k - 1], states[k]);
    }
}

/// Whatever the events, a light block that a run ends with is of the
/// height that was asked for, was served by the peer that was named, lists
/// no validator address twice, and has its signatures sorted by descending
/// power.
pub proof fn lemma_assembled_block_is_of_requested_height(
    states: Seq<LightBlockAssembler>,
    events: Seq<AssemblyEvent>,
)
    requires
        is_run(states, events),
        states.last().state is Assembled,
    ensures
        states.last().state->Assembled_0.signed_header.header.height == states[0].height,
        states.last().state->Assembled_0.peer_id == states[0].peer_id,
        unique_addresses(states.last().state->Assembled_0.validators.validators@),
        unique_addresses(states.last().state->Assembled_0.next_validators.validators@),
        is_power_sorted(
            states.last().state->Assembled_0.signed_header.commit.signatures@,
            states.last().state->Assembled_0.validators.validators@,
        ),
{
    lemma_run_keeps_invariant(states, events, states.len() - 1);
}

/// How far an assembly has come, as a number: it grows with every step
/// and is at most `2 * MAX_VALIDATOR_PAGES + 1`.
pub open spec fn progress(state: AssemblyState) -> int {
    match state {
        AssemblyState::AwaitingCommit => 0,
        AssemblyState::AwaitingValidators { pager, .. } => pager.page_index as int,
        AssemblyState::AwaitingNextValidators { pager, .. } => MAX_VALIDATOR_PAGES
            + pager.page_index,
        _ => 2 * MAX_VALIDATOR_PAGES + 1,
    }
}

/// An assembly ends after a bounded number of fetches, whatever the node
/// answers: every step of an assembly that has not ended brings it
/// further, and no assembly gets further than its end.
pub proof fn lemma_each_step_advances_the_assembly(
    before: LightBlockAssembler,
    event: AssemblyEvent,
    after: LightBlockAssembler,
)
    requires
        before.inv(),
        follows(before, event, after),
        before.state.stage().is_some(),
    ensures
        progress(before.state) < progress(after.state) <= 2 * MAX_VALIDATOR_PAGES + 1,
        after.state.stage().is_none() <==> progress(after.state) == 2 * MAX_VALIDATOR_PAGES + 1,
{
    lemma_step_keeps_invariant(before, event, after);
}

/// The step that finishes a light block keeps the validator set that was
/// collected for the height, and with it its total voting power.
pub proof fn lemma_assembled_block_keeps_validators(
    before: LightBlockAssembler,
    event: AssemblyEvent,
    after: LightBlockAssembler,
)
    requires
        follows(before, event, after),
        before.state is AwaitingNextValidators,
        after.state is Assembled,
    ensures
        after.state->Assembled_0.validators == before.state->AwaitingNextValidators_validators,
        total_power(after.state->Assembled_0.validators.validators@) == total_power(
            before.state->AwaitingNextValidators_validators.validators@,
        ),
{
}

} // verus!
