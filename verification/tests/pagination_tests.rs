use tendermint_operator::decimal::{parse_i32, parse_i32_bytes, parse_u64, parse_u64_bytes};
use tendermint_operator::pagination::{
    BlockValidatorSet, PageRequest, PagerOutcome, PaginationError, ValidatorPager,
    MAX_VALIDATOR_PAGES, VALIDATORS_PER_PAGE,
};
use tendermint_operator::types::Validator;

fn validator(n: u32) -> Validator {
    let mut address = [0u8; 20];
    address[0..4].copy_from_slice(&n.to_be_bytes());
    Validator { address, power: 1 + n as u64 }
}

fn page(range: std::ops::Range<u32>, total: &str) -> BlockValidatorSet {
    let validators: Vec<Validator> = range.map(validator).collect();
    BlockValidatorSet {
        block_height: "12".to_string(),
        count: validators.len().to_string(),
        validators,
        total: total.to_string(),
    }
}

fn expect_continue(outcome: PagerOutcome) -> ValidatorPager {
    match outcome {
        PagerOutcome::Continue(pager) => pager,
        other => panic!("expected another page, got {:?}", other),
    }
}

#[test]
fn set_of_250_in_three_pages_is_complete() {
    let pager = ValidatorPager::new(12);
    assert_eq!(pager.request(), PageRequest { height: 12, page: 1, per_page: 100 });
    let pager = expect_continue(pager.absorb(page(0..100, "250")));
    assert_eq!(pager.request(), PageRequest { height: 12, page: 2, per_page: 100 });
    assert_eq!(pager.collected.len(), 100);
    let pager = expect_continue(pager.absorb(page(100..200, "250")));
    assert_eq!(pager.request(), PageRequest { height: 12, page: 3, per_page: 100 });
    match pager.absorb(page(200..250, "250")) {
        PagerOutcome::Complete(validators) => {
            assert_eq!(validators.len(), 250);
            let mut addresses: Vec<[u8; 20]> = validators.iter().map(|v| v.address).collect();
            addresses.sort();
            addresses.dedup();
            assert_eq!(addresses.len(), 250);
            let expected: Vec<Validator> = (0..250).map(validator).collect();
            assert_eq!(validators, expected);
        }
        other => panic!("expected a complete set, got {:?}", other),
    }
}

#[test]
fn a_single_page_can_be_the_whole_set() {
    let outcome = ValidatorPager::new(12).absorb(page(0..3, "3"));
    assert_eq!(outcome, PagerOutcome::Complete((0..3).map(validator).collect()));
}

#[test]
fn more_validators_than_the_total_complete_the_set() {
    let outcome = ValidatorPager::new(12).absorb(page(0..5, "3"));
    assert_eq!(outcome, PagerOutcome::Complete((0..5).map(validator).collect()));
}

#[test]
fn an_empty_listing_is_complete() {
    let outcome = ValidatorPager::new(12).absorb(page(0..0, "0"));
    assert_eq!(outcome, PagerOutcome::Complete(vec![]));
}

#[test]
fn a_negative_total_is_reached_at_once() {
    let outcome = ValidatorPager::new(12).absorb(page(0..2, "-1"));
    assert_eq!(outcome, PagerOutcome::Complete((0..2).map(validator).collect()));
}

#[test]
fn a_repeated_page_is_a_duplicate() {
    let pager = expect_continue(ValidatorPager::new(12).absorb(page(0..100, "200")));
    let outcome = pager.absorb(page(0..100, "200"));
    assert_eq!(outcome, PagerOutcome::Failed(PaginationError::DuplicateValidator));
}

#[test]
fn malformed_counts_are_rejected() {
    let mut bad_count = page(0..2, "2");
    bad_count.count = "two".to_string();
    assert_eq!(
        ValidatorPager::new(12).absorb(bad_count),
        PagerOutcome::Failed(PaginationError::MalformedCount)
    );
    assert_eq!(
        ValidatorPager::new(12).absorb(page(0..2, "")),
        PagerOutcome::Failed(PaginationError::MalformedCount)
    );
    assert_eq!(
        ValidatorPager::new(12).absorb(page(0..2, "99999999999")),
        PagerOutcome::Failed(PaginationError::MalformedCount)
    );
}

#[test]
fn a_count_that_differs_from_the_page_is_rejected() {
    let mut short = page(0..2, "2");
    short.count = "3".to_string();
    assert_eq!(
        ValidatorPager::new(12).absorb(short),
        PagerOutcome::Failed(PaginationError::CountMismatch)
    );
    let mut negative = page(0..0, "2");
    negative.count = "-0".to_string();
    assert_eq!(ValidatorPager::new(12).absorb(negative.clone()).clone(), {
        let pager = ValidatorPager { height: 12, page_index: 2, collected: vec![] };
        PagerOutcome::Continue(pager)
    });
    negative.count = "-1".to_string();
    assert_eq!(
        ValidatorPager::new(12).absorb(negative),
        PagerOutcome::Failed(PaginationError::CountMismatch)
    );
}

#[test]
fn pagination_stops_at_the_page_limit() {
    assert_eq!(MAX_VALIDATOR_PAGES, 1000);
    assert_eq!(VALIDATORS_PER_PAGE, 100);
    let mut pager = ValidatorPager::new(12);
    for index in 1..MAX_VALIDATOR_PAGES {
        assert_eq!(pager.page_index, index);
        pager = expect_continue(pager.absorb(page(0..0, "5")));
    }
    assert_eq!(pager.page_index, MAX_VALIDATOR_PAGES);
    assert_eq!(
        pager.absorb(page(0..0, "5")),
        PagerOutcome::Failed(PaginationError::TooManyPages)
    );
}

#[test]
fn the_last_allowed_page_may_complete_the_set() {
    let pager = ValidatorPager { height: 12, page_index: MAX_VALIDATOR_PAGES, collected: vec![validator(0)] };
    assert_eq!(
        pager.absorb(page(1..2, "2")),
        PagerOutcome::Complete(vec![validator(0), validator(1)])
    );
}

#[test]
fn decimal_numbers_are_read_with_their_sign() {
    assert_eq!(parse_i32("0"), Some(0));
    assert_eq!(parse_i32("100"), Some(100));
    assert_eq!(parse_i32("+5"), Some(5));
    assert_eq!(parse_i32("-5"), Some(-5));
    assert_eq!(parse_i32("-0"), Some(0));
    assert_eq!(parse_i32("007"), Some(7));
    assert_eq!(parse_i32("2147483647"), Some(i32::MAX));
    assert_eq!(parse_i32("-2147483648"), Some(i32::MIN));
    assert_eq!(parse_i32("00000000000000000000012"), Some(12));
}

#[test]
fn text_that_is_no_number_is_rejected() {
    assert_eq!(parse_i32(""), None);
    assert_eq!(parse_i32("+"), None);
    assert_eq!(parse_i32("-"), None);
    assert_eq!(parse_i32("12a"), None);
    assert_eq!(parse_i32(" 12"), None);
    assert_eq!(parse_i32("1 2"), None);
    assert_eq!(parse_i32("--1"), None);
    assert_eq!(parse_i32("+-1"), None);
    assert_eq!(parse_i32("1.0"), None);
    assert_eq!(parse_i32("2147483648"), None);
    assert_eq!(parse_i32("-2147483649"), None);
    assert_eq!(parse_i32("99999999999999999999999999"), None);
    assert_eq!(parse_i32("99999999999999999999999999x"), None);
    assert_eq!(parse_i32("١٢"), None);
    assert_eq!(parse_i32_bytes(&[0x31, 0xff]), None);
}

#[test]
fn decimal_reading_agrees_with_the_standard_library() {
    let samples = [
        "0", "1", "-1", "+1", "42", "-42", "2147483647", "2147483648", "-2147483648",
        "-2147483649", "", "+", "-", "a", "1a", "a1", "0x10", "+0", "-0", "000", "4294967296",
        "1e3", "1_000", " 1", "1 ",
    ];
    for s in samples {
        assert_eq!(parse_i32(s), s.parse::<i32>().ok(), "on {:?}", s);
    }
}

#[test]
fn a_page_of_another_height_is_rejected() {
    assert_eq!(
        ValidatorPager::new(13).absorb(page(0..3, "3")),
        PagerOutcome::Failed(PaginationError::HeightMismatch)
    );
    let mut unnamed = page(0..3, "3");
    unnamed.block_height = String::new();
    assert_eq!(
        ValidatorPager::new(12).absorb(unnamed),
        PagerOutcome::Failed(PaginationError::HeightMismatch)
    );
    let mut padded = page(0..3, "3");
    padded.block_height = "0012".to_string();
    assert_eq!(
        ValidatorPager::new(12).absorb(padded),
        PagerOutcome::Complete((0..3).map(validator).collect())
    );
    let mut both = page(0..3, "x");
    both.block_height = "11".to_string();
    assert_eq!(
        ValidatorPager::new(12).absorb(both),
        PagerOutcome::Failed(PaginationError::HeightMismatch)
    );
}

#[test]
fn heights_are_read_as_unsigned_decimal_numbers() {
    assert_eq!(parse_u64("0"), Some(0));
    assert_eq!(parse_u64("+7"), Some(7));
    assert_eq!(parse_u64("18446744073709551615"), Some(u64::MAX));
    assert_eq!(parse_u64("18446744073709551616"), None);
    assert_eq!(parse_u64("-0"), None);
    assert_eq!(parse_u64("-1"), None);
    assert_eq!(parse_u64(""), None);
    assert_eq!(parse_u64("+"), None);
    assert_eq!(parse_u64("12 "), None);
    assert_eq!(parse_u64_bytes(b"340282366920938463463374607431768211456"), None);
    for s in ["1", "+1", "-1", "", "+", "00", "18446744073709551615", "18446744073709551616", "1x"] {
        assert_eq!(parse_u64(s), s.parse::<u64>().ok(), "on {:?}", s);
    }
}
