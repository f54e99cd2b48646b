use tendermint_operator::header_verifier::Verdict;
use tendermint_operator::program::{certify_update, TRUSTING_PERIOD};
use tendermint_operator::public_values::{decode_uint64, TendermintOutput};
use tendermint_operator::types::{
    Commit, CommitSig, Header, LightBlock, SignedHeader, Validator, ValidatorSet,
};

const SECOND: u64 = 1_000_000_000;

fn addr(n: u8) -> [u8; 20] {
    [n; 20]
}

fn set() -> ValidatorSet {
    let validators: Vec<Validator> =
        (1..=4).map(|n| Validator { address: addr(n), power: 25 }).collect();
    ValidatorSet::new(validators, [7u8; 32]).unwrap()
}

fn hash_of(height: u64) -> [u8; 32] {
    let mut hash = [0xaau8; 32];
    hash[0] = height as u8;
    hash[31] = (height * 3) as u8;
    hash
}

fn block(height: u64, time: u64, signers: &[u8]) -> LightBlock {
    LightBlock::new(
        SignedHeader {
            header: Header {
                height,
                time,
                hash: hash_of(height),
                validators_hash: [7u8; 32],
                next_validators_hash: [7u8; 32],
            },
            commit: Commit {
                signatures: signers
                    .iter()
                    .map(|n| CommitSig::Commit { validator_address: addr(*n) })
                    .collect(),
            },
        },
        set(),
        set(),
        addr(9),
    )
}

#[test]
fn update_from_100_to_110_signed_by_all_is_certified() {
    let trusted = block(100, 1_000 * SECOND, &[1, 2, 3, 4]);
    let target = block(110, 1_060 * SECOND, &[1, 2, 3, 4]);
    let public_values = certify_update(&trusted, &target).unwrap();
    let tuple = TendermintOutput::abi_decode(&public_values).unwrap();
    assert_eq!(
        (tuple.trusted_height, tuple.target_height, tuple.trusted_header_hash, tuple.target_header_hash),
        (100, 110, hash_of(100), hash_of(110))
    );
}

#[test]
fn update_signed_by_less_than_a_third_is_not_certified() {
    let trusted = block(100, 1_000 * SECOND, &[1, 2, 3, 4]);
    let target = block(110, 1_060 * SECOND, &[1]);
    assert_eq!(certify_update(&trusted, &target), Err(Verdict::InsufficientTrust));
}

#[test]
fn certification_trusts_for_two_weeks() {
    assert_eq!(TRUSTING_PERIOD, 14 * 24 * 60 * 60 * SECOND);
    let trusted = block(100, 1_000 * SECOND, &[1, 2, 3, 4]);
    let at_limit = block(110, 1_000 * SECOND + TRUSTING_PERIOD, &[1, 2, 3, 4]);
    let past_limit = block(110, 1_000 * SECOND + TRUSTING_PERIOD + 1, &[1, 2, 3, 4]);
    assert!(certify_update(&trusted, &at_limit).is_ok());
    assert_eq!(certify_update(&trusted, &past_limit), Err(Verdict::Expired));
    assert_eq!(certify_update(&at_limit, &trusted), Err(Verdict::InvalidCommit));
}

#[test]
fn a_height_is_read_from_one_word() {
    let mut word = [0u8; 32];
    assert_eq!(decode_uint64(&word), Some(0));
    word[31] = 0x2a;
    word[30] = 0x01;
    assert_eq!(decode_uint64(&word), Some(298));
    word[24] = 0xff;
    assert_eq!(decode_uint64(&word), Some(0xff00_0000_0000_012a));
    word[23] = 1;
    assert_eq!(decode_uint64(&word), None);
    assert_eq!(decode_uint64(&[0u8; 31]), None);
    assert_eq!(decode_uint64(&[0u8; 33]), None);
    assert_eq!(decode_uint64(&[]), None);
}
