use alloy_sol_types::{sol_data, SolType};
use tendermint_operator::calldata::{build_calldata, ProofClaim};
use tendermint_operator::public_values::{public_values_match, TendermintOutput};
use tendermint_operator::types::{Commit, Header, LightBlock, SignedHeader, ValidatorSet};

type OutputTuple =
    (sol_data::Uint<64>, sol_data::Uint<64>, sol_data::FixedBytes<32>, sol_data::FixedBytes<32>);

type CallArguments = (sol_data::Bytes, sol_data::Bytes);

fn block(height: u64, hash: [u8; 32]) -> LightBlock {
    LightBlock::new(
        SignedHeader {
            header: Header {
                height,
                time: 0,
                hash,
                validators_hash: [0u8; 32],
                next_validators_hash: [0u8; 32],
            },
            commit: Commit { signatures: vec![] },
        },
        ValidatorSet::new(vec![], [0u8; 32]).unwrap(),
        ValidatorSet::new(vec![], [0u8; 32]).unwrap(),
        [0u8; 20],
    )
}

fn sample() -> TendermintOutput {
    let mut trusted_header_hash = [0u8; 32];
    let mut target_header_hash = [0u8; 32];
    for i in 0..32 {
        trusted_header_hash[i] = i as u8;
        target_header_hash[i] = 0xff - i as u8;
    }
    TendermintOutput {
        trusted_height: 100,
        target_height: 110,
        trusted_header_hash,
        target_header_hash,
    }
}

fn word(x: u64) -> Vec<u8> {
    let mut w = vec![0u8; 24];
    w.extend_from_slice(&x.to_be_bytes());
    w
}

#[test]
fn the_tuple_is_four_words_in_order() {
    let o = sample();
    let bytes = o.abi_encode();
    assert_eq!(bytes.len(), 128);
    assert_eq!(&bytes[0..32], &word(100)[..]);
    assert_eq!(&bytes[32..64], &word(110)[..]);
    assert_eq!(&bytes[64..96], &o.trusted_header_hash[..]);
    assert_eq!(&bytes[96..128], &o.target_header_hash[..]);
    assert_eq!(bytes[31], 100);
    assert_eq!(bytes[63], 110);
}

#[test]
fn heights_are_big_endian() {
    let o = TendermintOutput {
        trusted_height: 0x0102030405060708,
        target_height: u64::MAX,
        trusted_header_hash: [0u8; 32],
        target_header_hash: [0u8; 32],
    };
    let bytes = o.abi_encode();
    assert_eq!(&bytes[24..32], &[1, 2, 3, 4, 5, 6, 7, 8]);
    assert_eq!(&bytes[56..64], &[0xff; 8]);
    assert_eq!(&bytes[0..24], &[0u8; 24]);
}

#[test]
fn decoding_reproduces_the_tuple() {
    let o = sample();
    assert_eq!(TendermintOutput::abi_decode(&o.abi_encode()), Some(o));
    let extremes = TendermintOutput {
        trusted_height: 0,
        target_height: u64::MAX,
        trusted_header_hash: [0xab; 32],
        target_header_hash: [0xcd; 32],
    };
    assert_eq!(TendermintOutput::abi_decode(&extremes.abi_encode()), Some(extremes));
}

#[test]
fn bytes_that_encode_no_tuple_are_rejected() {
    let bytes = sample().abi_encode();
    assert_eq!(TendermintOutput::abi_decode(&bytes[..127]), None);
    assert_eq!(TendermintOutput::abi_decode(&[]), None);
    let mut longer = bytes.clone();
    longer.push(0);
    assert_eq!(TendermintOutput::abi_decode(&longer), None);
    let mut dirty = bytes.clone();
    dirty[0] = 1;
    assert_eq!(TendermintOutput::abi_decode(&dirty), None);
    let mut dirty = bytes.clone();
    dirty[23] = 1;
    assert_eq!(TendermintOutput::abi_decode(&dirty), None);
    let mut dirty = bytes.clone();
    dirty[32 + 5] = 1;
    assert_eq!(TendermintOutput::abi_decode(&dirty), None);
    let mut other = bytes.clone();
    other[24] = 1;
    assert_eq!(TendermintOutput::abi_decode(&other).unwrap().trusted_height, (1 << 56) + 100);
}

#[test]
fn encoding_agrees_with_the_abi_library() {
    let o = sample();
    let expected = <OutputTuple as SolType>::abi_encode(&(
        o.trusted_height,
        o.target_height,
        o.trusted_header_hash,
        o.target_header_hash,
    ));
    assert_eq!(o.abi_encode(), expected);
}

#[test]
fn decoding_agrees_with_the_abi_library() {
    let o = sample();
    let bytes = o.abi_encode();
    let (trusted_height, target_height, trusted_hash, target_hash) =
        <OutputTuple as SolType>::abi_decode(&bytes).unwrap();
    let ours = TendermintOutput::abi_decode(&bytes).unwrap();
    assert_eq!(ours.trusted_height, trusted_height);
    assert_eq!(ours.target_height, target_height);
    assert_eq!(ours.trusted_header_hash, trusted_hash.0);
    assert_eq!(ours.target_header_hash, target_hash.0);
}

#[test]
fn public_values_of_an_update_name_heights_and_hashes() {
    let trusted = block(100, [1u8; 32]);
    let target = block(110, [2u8; 32]);
    let o = TendermintOutput::of_update(&trusted, &target);
    assert_eq!(
        o,
        TendermintOutput {
            trusted_height: 100,
            target_height: 110,
            trusted_header_hash: [1u8; 32],
            target_header_hash: [2u8; 32],
        }
    );
    let bytes = o.abi_encode();
    assert!(public_values_match(&bytes, &trusted, &target));
    assert!(!public_values_match(&bytes, &target, &trusted));
    assert!(!public_values_match(&bytes, &trusted, &block(111, [2u8; 32])));
    assert!(!public_values_match(&bytes, &trusted, &block(110, [3u8; 32])));
    assert!(!public_values_match(&bytes[..64], &trusted, &target));
}

#[test]
fn calldata_holds_public_values_before_the_proof() {
    let selector = [0xde, 0xad, 0xbe, 0xef];
    let data = build_calldata(&selector, &[1, 2, 3], &[9; 33]);
    let mut expected = selector.to_vec();
    expected.extend(word(64));
    expected.extend(word(128));
    expected.extend(word(3));
    expected.extend([1, 2, 3]);
    expected.extend([0u8; 29]);
    expected.extend(word(33));
    expected.extend([9u8; 33]);
    expected.extend([0u8; 31]);
    assert_eq!(data, expected);
}

#[test]
fn calldata_of_empty_and_whole_word_arguments() {
    let selector = [1, 2, 3, 4];
    let data = build_calldata(&selector, &[], &[7; 32]);
    let mut expected = selector.to_vec();
    expected.extend(word(64));
    expected.extend(word(96));
    expected.extend(word(0));
    expected.extend(word(32));
    expected.extend([7u8; 32]);
    assert_eq!(data, expected);
}

#[test]
fn calldata_agrees_with_the_abi_library() {
    let selector = [0x12, 0x34, 0x56, 0x78];
    for (a, b) in [(0usize, 0usize), (1, 31), (32, 33), (128, 260), (95, 64)] {
        let public_values: Vec<u8> = (0..a).map(|i| i as u8).collect();
        let proof: Vec<u8> = (0..b).map(|i| (i * 7) as u8).collect();
        let mut expected = selector.to_vec();
        expected.extend(<CallArguments as SolType>::abi_encode_params(&(
            public_values.clone(),
            proof.clone(),
        )));
        assert_eq!(build_calldata(&selector, &public_values, &proof), expected);
        let claim = ProofClaim { public_values, proof };
        assert_eq!(claim.calldata(&selector), expected);
    }
}
