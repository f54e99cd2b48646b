//! Collecting a validator set from a paginated listing.
//!
//! The caller fetches the page that the pager asks for and hands it back;
//! the pager decides whether the set is complete, another page is due, or
//! the listing is inconsistent.

use vstd::prelude::*;
use crate::decimal::{parse_i32, parse_u64, text_i32, text_u64};
use crate::types::{Validator, addresses_are_unique, unique_addresses};

verus! {

/// The number of validators asked for per page.
pub const VALIDATORS_PER_PAGE: u32 = 100;

/// The largest number of pages fetched for one validator set.
pub const MAX_VALIDATOR_PAGES: u32 = 1000;

/// One page of the node's validator listing.
#[derive(Clone, Debug, PartialEq, Eq)]
pub struct BlockValidatorSet {
    /// The height that the page belongs to, as decimal text.
    pub block_height: String,
    pub validators: Vec<Validator>,
    /// The number of validators on this page, as decimal text.
    pub count: String,
    /// The number of validators in the whole set, as decimal text.
    pub total: String,
}

/// The node's answer to a request for one page of validators.
#[derive(Clone, Debug, PartialEq, Eq)]
pub struct ValidatorSetResponse {
    pub result: BlockValidatorSet,
}

/// The page to fetch next.
#[derive(Clone, Copy, Debug, PartialEq, Eq, Structural)]
pub struct PageRequest {
    pub height: u64,
    /// The page's number, counted from 1.
    pub page: u32,
    pub per_page: u32,
}

/// Why a listing gave no validator set.
#[derive(Clone, Copy, Debug, PartialEq, Eq, Structural)]
pub enum PaginationError {
    /// A page's `block_height` is not the height that was asked for.
    HeightMismatch,
    /// A page's `count` or `total` is no 32-bit decimal number.
    MalformedCount,
    /// A page's `count` is not the number of validators on it.
    CountMismatch,
    /// The pages together list an address twice.
    DuplicateValidator,
    /// The page limit was reached before the listing reached its total.
    TooManyPages,
}

/// The state of one collection: the validators of the pages so far.
#[derive(Clone, Debug, PartialEq, Eq)]
pub struct ValidatorPager {
    pub height: u64,
    /// The number of the page that is due, counted from 1.
    pub page_index: u32,
    pub collected: Vec<Validator>,
}

/// What a page led to.
#[derive(Clone, Debug, PartialEq, Eq)]
pub enum PagerOutcome {
    /// Another page is due.
    Continue(ValidatorPager),
    /// The set is complete.
    Complete(Vec<Validator>),
    /// The listing is inconsistent.
    Failed(PaginationError),
}

/// What a page leads to, as mathematical data.
pub enum PageEffect {
    /// Another page is due; the validators collected so far.
    Continue(Seq<Validator>),
    /// The set is complete: its validators.
    Complete(Seq<Validator>),
    /// The listing is inconsistent.
    Failed(PaginationError),
}

/// What taking in `page` leads to, from the state `pager`. The checks are
/// made in this order, and the first that fails decides.
pub open spec fn page_effect(pager: ValidatorPager, page: BlockValidatorSet) -> PageEffect {
    let count = text_i32(page.count@);
    let total = text_i32(page.total@);
    let all = pager.collected@ + page.validators@;
    if text_u64(page.block_height@) != Some(pager.height) {
        PageEffect::Failed(PaginationError::HeightMismatch)
    } else if count.is_none() || total.is_none() {
        PageEffect::Failed(PaginationError::MalformedCount)
    } else if count.unwrap() != page.validators@.len() {
        PageEffect::Failed(PaginationError::CountMismatch)
    } else if all.len() >= total.unwrap() {
        if unique_addresses(all) {
            PageEffect::Complete(all)
        } else {
            PageEffect::Failed(PaginationError::DuplicateValidator)
        }
    } else if pager.page_index >= MAX_VALIDATOR_PAGES {
        PageEffect::Failed(PaginationError::TooManyPages)
    } else {
        PageEffect::Continue(all)
    }
}

/// `out` is what taking in `page` leads to, from the state `pager`.
pub open spec fn absorbs_to(pager: ValidatorPager, page: BlockValidatorSet, out: PagerOutcome) -> bool {
    match page_effect(pager, page) {
        PageEffect::Failed(error) => out == PagerOutcome::Failed(error),
        PageEffect::Complete(all) => out matches PagerOutcome::Complete(v) && v@ == all,
        PageEffect::Continue(all) => out matches PagerOutcome::Continue(next) && next.height
            == pager.height && next.page_index == pager.page_index + 1 && next.collected@ == all
            && next.wf(),
    }
}

impl ValidatorPager {
    /// The page that is due lies within the page limit.
    pub open spec fn wf(&self) -> bool {
        1 <= self.page_index <= MAX_VALIDATOR_PAGES
    }

    /// Starts collecting the validator set of `height`, at page 1.
    pub fn new(height: u64) -> (p: ValidatorPager)
        ensures
            p.height == height,
            p.page_index == 1,
            p.collected@ == Seq::<Validator>::empty(),
            p.wf(),
    {
        ValidatorPager { height, page_index: 1, collected: Vec::new() }
    }

    /// The page to fetch next.
    pub open spec fn spec_request(&self) -> PageRequest {
        PageRequest { height: self.height, page: self.page_index, per_page: VALIDATORS_PER_PAGE }
    }

    /// The page to fetch next.
    pub fn request(&self) -> (r: PageRequest)
        ensures
            r == self.spec_request(),
    {
        PageRequest { height: self.height, page: self.page_index, per_page: VALIDATORS_PER_PAGE }
    }

    /// Takes in the page that was asked for. The set is complete once the
    /// validators collected are at least as many as the page's `total`; a
    /// complete set lists no address twice.
    pub fn absorb(self, page: BlockValidatorSet) -> (out: PagerOutcome)
        requires
            self.wf(),
        ensures
            absorbs_to(self, page, out),
    {
        match parse_u64(page.block_height.as_str()) {
            Some(height) => {
                if height != self.height {
                    return PagerOutcome::Failed(PaginationError::HeightMismatch);
                }
            },
            None => {
                return PagerOutcome::Failed(PaginationError::HeightMismatch);
            },
        }
        let count = match parse_i32(page.count.as_str()) {
            Some(c) => c,
            None => {
                return PagerOutcome::Failed(PaginationError::MalformedCount);
            },
        };
        let total = match parse_i32(page.total.as_str()) {
            Some(t) => t,
            None => {
                return PagerOutcome::Failed(PaginationError::MalformedCount);
            },
        };
        if count < 0 || count as u64 != page.validators.len() as u64 {
            return PagerOutcome::Failed(PaginationError::CountMismatch);
        }
        let ghost all = self.collected@ + page.validators@;
        let mut collected = self.collected;
        let mut fresh = page.validators;
        collected.append(&mut fresh);
        if total < 0 || collected.len() as u64 >= total as u64 {
            if addresses_are_unique(&collected) {
                PagerOutcome::Complete(collected)
            } else {
                PagerOutcome::Failed(PaginationError::DuplicateValidator)
            }
        } else if self.page_index >= MAX_VALIDATOR_PAGES {
            PagerOutcome::Failed(PaginationError::TooManyPages)
        } else {
            PagerOutcome::Continue(
                ValidatorPager { height: self.height, page_index: self.page_index + 1, collected },
            )
        }
    }
}

} // verus!
