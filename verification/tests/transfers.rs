//! Mint and transfer scenarios through the full validator.

use sourly_cat::error::Error;
use sourly_cat::record::NFTData;
use sourly_cat::validate::{validate, Transition};

fn blake2b_160(data: &[u8]) -> Vec<u8> {
    let mut out = [0u8; 32];
    let mut hasher = blake2b_ref::Blake2bBuilder::new(32).personal(b"ckb-default-hash").build();
    hasher.update(data);
    hasher.finalize(&mut out);
    out[0..20].to_vec()
}

fn rec(name: &[u8], hash: Vec<u8>, fishes: i32) -> NFTData {
    let mut n = vec![0u8; 16];
    n[..name.len()].copy_from_slice(name);
    NFTData { name: n, hash, fishes }
}

fn named_nft(tag3: &[u8; 3], owner_binding: &[u8], fishes: i32) -> NFTData {
    let mut name4 = tag3.to_vec();
    name4.push(b'$');
    let mut conc = tag3.to_vec();
    conc.extend_from_slice(owner_binding);
    rec(&name4, blake2b_160(&conc), fishes)
}

fn encode_all(recs: &[NFTData]) -> Vec<Vec<u8>> {
    recs.iter().map(|r| r.encode()).collect()
}

#[test]
fn test_create_nft() {
    // The authority's binding hash unlocks the single input, so the
    // four freshly minted records are accepted without checks.
    let authority = vec![23u8; 20];
    let user_binding = vec![42u8; 20];
    let tags: [[u8; 3]; 4] = [*b"125", *b"123", *b"234", *b"456"];
    let nfts: Vec<NFTData> = tags.iter().map(|t| named_nft(t, &user_binding, 9)).collect();
    let t = Transition {
        authority_arg: authority.clone(),
        input_bindings: vec![authority],
        before_data: vec![],
        after_data: encode_all(&nfts),
        before_bindings: vec![],
        after_bindings: vec![user_binding; 4],
        aux_proof: None,
    };
    assert_eq!(validate(&t), Ok(()));
}

#[test]
fn tests_test_nft_transfer() {
    // Four records move to a new owner unchanged.
    let authority = vec![23u8; 20];
    let input_binding = vec![1u8; 20];
    let user_binding = vec![2u8; 20];
    let tags: [[u8; 3]; 4] = [*b"125", *b"123", *b"234", *b"456"];
    let nfts: Vec<NFTData> = tags.iter().map(|t| named_nft(t, &user_binding, 9)).collect();
    let t = Transition {
        authority_arg: authority,
        input_bindings: vec![input_binding.clone(); 4],
        before_data: encode_all(&nfts),
        after_data: encode_all(&nfts),
        before_bindings: vec![input_binding; 4],
        after_bindings: vec![user_binding; 4],
        aux_proof: None,
    };
    assert_eq!(validate(&t), Ok(()));
}

#[test]
fn nft_transfer_test_nft_transfer() {
    // As the signed-transaction variant: same content both sides,
    // witnesses carry no round certificate.
    let authority = vec![0u8; 20];
    let input_binding: Vec<u8> = (0u8..20).collect();
    let user_binding: Vec<u8> = (100u8..120).collect();
    let nfts: Vec<NFTData> = (0..4)
        .map(|i| named_nft(&[b'a' + i as u8, b'b', b'c'], &user_binding, 9))
        .collect();
    let t = Transition {
        authority_arg: authority,
        input_bindings: vec![input_binding.clone(); 4],
        before_data: encode_all(&nfts),
        after_data: encode_all(&nfts),
        before_bindings: vec![input_binding; 4],
        after_bindings: vec![user_binding; 4],
        aux_proof: Some(vec![]),
    };
    assert_eq!(validate(&t), Ok(()));
}

#[test]
fn scenario_transfer_two_records_new_owner() {
    // Two records, identical content, different owner binding after.
    let before_binding = vec![5u8; 20];
    let after_binding = vec![6u8; 20];
    let nfts = vec![
        rec(b"one", vec![11u8; 20], 3),
        rec(b"two", vec![12u8; 20], -7),
    ];
    let t = Transition {
        authority_arg: vec![9u8; 20],
        input_bindings: vec![before_binding.clone(); 2],
        before_data: encode_all(&nfts),
        after_data: encode_all(&nfts),
        before_bindings: vec![before_binding; 2],
        after_bindings: vec![after_binding; 2],
        aux_proof: None,
    };
    assert_eq!(validate(&t), Ok(()));
}

#[test]
fn scenario_transfer_rejects_tampered_balance() {
    // One record's balance differs with no round certificate present.
    let binding = vec![5u8; 20];
    let before = vec![rec(b"one", vec![11u8; 20], 3), rec(b"two", vec![12u8; 20], 8)];
    let mut after = vec![rec(b"one", vec![11u8; 20], 3), rec(b"two", vec![12u8; 20], 8)];
    after[1].fishes = 9;
    let t = Transition {
        authority_arg: vec![9u8; 20],
        input_bindings: vec![binding.clone(); 2],
        before_data: encode_all(&before),
        after_data: encode_all(&after),
        before_bindings: vec![binding.clone(); 2],
        after_bindings: vec![binding; 2],
        aux_proof: None,
    };
    assert_eq!(validate(&t), Err(Error::WrongTransfer));
}

#[test]
fn transfer_rejects_renamed_record() {
    let binding = vec![5u8; 20];
    let before = vec![rec(b"one", vec![11u8; 20], 3)];
    let after = vec![rec(b"eno", vec![11u8; 20], 3)];
    let t = Transition {
        authority_arg: vec![9u8; 20],
        input_bindings: vec![binding.clone()],
        before_data: encode_all(&before),
        after_data: encode_all(&after),
        before_bindings: vec![binding.clone()],
        after_bindings: vec![binding],
        aux_proof: None,
    };
    assert_eq!(validate(&t), Err(Error::WrongTransfer));
}

#[test]
fn dispatcher_rejects_count_mismatch() {
    let binding = vec![5u8; 20];
    let before = vec![rec(b"one", vec![11u8; 20], 3), rec(b"two", vec![12u8; 20], 8)];
    let after = vec![rec(b"one", vec![11u8; 20], 3)];
    let t = Transition {
        authority_arg: vec![9u8; 20],
        input_bindings: vec![binding.clone(); 2],
        before_data: encode_all(&before),
        after_data: encode_all(&after),
        before_bindings: vec![binding.clone(); 2],
        after_bindings: vec![binding],
        aux_proof: None,
    };
    assert_eq!(validate(&t), Err(Error::WrongInputOutput));
}

#[test]
fn codec_rejects_short_input_record() {
    let binding = vec![5u8; 20];
    let good = rec(b"one", vec![11u8; 20], 3);
    let t = Transition {
        authority_arg: vec![9u8; 20],
        input_bindings: vec![binding.clone()],
        before_data: vec![good.encode()[..39].to_vec()],
        after_data: vec![good.encode()],
        before_bindings: vec![binding.clone()],
        after_bindings: vec![binding],
        aux_proof: None,
    };
    assert_eq!(validate(&t), Err(Error::Encoding));
}

#[test]
fn codec_input_records_are_strict() {
    // A before-side record longer than 40 bytes is rejected even
    // though the same payload would pass on the after side.
    let binding = vec![5u8; 20];
    let good = rec(b"one", vec![11u8; 20], 3);
    let mut long = good.encode();
    long.push(0);
    let t = Transition {
        authority_arg: vec![9u8; 20],
        input_bindings: vec![binding.clone()],
        before_data: vec![long],
        after_data: vec![good.encode()],
        before_bindings: vec![binding.clone()],
        after_bindings: vec![binding],
        aux_proof: None,
    };
    assert_eq!(validate(&t), Err(Error::Encoding));
}

#[test]
fn codec_output_records_are_lenient() {
    // An after-side record may carry trailing bytes beyond the fixed
    // 40-byte layout; only the leading 40 bytes are compared.
    let binding = vec![5u8; 20];
    let good = rec(b"one", vec![11u8; 20], 3);
    let mut long = good.encode();
    long.push(0xee);
    let t = Transition {
        authority_arg: vec![9u8; 20],
        input_bindings: vec![binding.clone()],
        before_data: vec![good.encode()],
        after_data: vec![long],
        before_bindings: vec![binding.clone()],
        after_bindings: vec![binding],
        aux_proof: None,
    };
    assert_eq!(validate(&t), Ok(()));
}

#[test]
fn mint_rejects_malformed_output() {
    // After-side records are decoded before the authority check.
    let authority = vec![23u8; 20];
    let t = Transition {
        authority_arg: authority.clone(),
        input_bindings: vec![authority],
        before_data: vec![],
        after_data: vec![vec![0u8; 39]],
        before_bindings: vec![],
        after_bindings: vec![vec![7u8; 20]],
        aux_proof: None,
    };
    assert_eq!(validate(&t), Err(Error::Encoding));
}

#[test]
fn mint_accepts_any_wellformed_outputs() {
    // Authority sanction skips every content check: odd names and
    // negative balances pass.
    let authority = vec![23u8; 20];
    let nfts = vec![rec(&[0xffu8; 16], vec![0u8; 20], -5), rec(b"", vec![1u8; 20], i32::MAX)];
    let t = Transition {
        authority_arg: authority.clone(),
        input_bindings: vec![vec![1u8; 20], authority, vec![2u8; 20]],
        before_data: vec![],
        after_data: encode_all(&nfts),
        before_bindings: vec![],
        after_bindings: vec![vec![7u8; 20]; 2],
        aux_proof: None,
    };
    assert_eq!(validate(&t), Ok(()));
}
