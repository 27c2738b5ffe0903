//! Randomized battle runs: a certificate is always found, it
//! validates, and the winner inequalities never both hold.

use sourly_cat::battle::hurt;
use sourly_cat::record::NFTData;
use sourly_cat::stats::Statistics;
use sourly_cat::validate::{validate, Transition};

fn blake2b_160(data: &[u8]) -> Vec<u8> {
    let mut out = [0u8; 32];
    let mut hasher = blake2b_ref::Blake2bBuilder::new(32).personal(b"ckb-default-hash").build();
    hasher.update(data);
    hasher.finalize(&mut out);
    out[0..20].to_vec()
}

fn random_20bytes() -> Vec<u8> {
    let mut buf = [0u8; 20];
    rand::fill(&mut buf[..]);
    buf.to_vec()
}

fn find_certificate(s0: &Statistics, s1: &Statistics, max: u16) -> Option<(u16, bool)> {
    let h0 = hurt(s0.atk, s1.def, s1.lck) as u32;
    let h1 = hurt(s1.atk, s0.def, s0.lck) as u32;
    let goal1 = 5 * s1.hp as u32;
    let goal0 = 5 * s0.hp as u32;
    for i in 1..=max {
        let dealt0 = i as u32 * h0;
        let dealt1 = i as u32 * h1;
        let win0 = dealt0 >= goal1 && (i as u32 - 1) * h1 < goal0;
        let win1 = dealt0 < goal1 && dealt1 >= goal0;
        assert!(!(win0 && win1), "both winner inequalities held at round {}", i);
        if win0 {
            return Some((i, true));
        }
        if win1 {
            return Some((i, false));
        }
    }
    None
}

fn run_random_fight(in0: &NFTData, in1: &NFTData, bind1: &[u8], bind2: &[u8]) -> bool {
    let s0 = Statistics::from_hash(&in0.hash);
    let s1 = Statistics::from_hash(&in1.hash);
    let (n, slot0_won) = find_certificate(&s0, &s1, 5000).expect("a certificate must exist");
    let (w, l, sw, sl, wbind) = if slot0_won {
        (in0, in1, s0, s1, bind1)
    } else {
        (in1, in0, s1, s0, bind2)
    };
    let mut loser_fishes = l.fishes - (sw.atk / 10) as i32;
    if loser_fishes == 0 {
        loser_fishes = 999;
    }
    let winner_fishes = w.fishes + (sl.hp / 10) as i32;
    let mut conc = l.hash.clone();
    conc.extend_from_slice(wbind);
    let w_out = NFTData { name: w.name.clone(), hash: w.hash.clone(), fishes: winner_fishes };
    let l_out = NFTData { name: l.name.clone(), hash: blake2b_160(&conc), fishes: loser_fishes };
    let (out0, out1) = if slot0_won { (&w_out, &l_out) } else { (&l_out, &w_out) };
    let t = Transition {
        authority_arg: vec![0xcc; 20],
        input_bindings: vec![bind1.to_vec(), bind2.to_vec()],
        before_data: vec![in0.encode(), in1.encode()],
        after_data: vec![out0.encode(), out1.encode()],
        before_bindings: vec![bind1.to_vec(), bind2.to_vec()],
        after_bindings: vec![bind1.to_vec(), bind2.to_vec()],
        aux_proof: Some(vec![0, 0, 0, 0, (n >> 8) as u8, (n & 0xff) as u8]),
    };
    assert_eq!(validate(&t), Ok(()));
    slot0_won
}

#[test]
fn tests_test_fighting_prob() {
    for k in 1..=10 {
        let all = 200;
        let mut win_1_count = 0;
        let mut win_2_count = 0;
        for _ in 0..all {
            let bind1 = random_20bytes();
            let bind2 = random_20bytes();
            let mut conc = b"125".to_vec();
            conc.extend_from_slice(&bind1);
            let mut in0 = NFTData { name: vec![0u8; 16], hash: blake2b_160(&conc), fishes: 9 };
            in0.name[0..4].copy_from_slice(b"125$");
            let mut conc = b"123".to_vec();
            conc.extend_from_slice(&bind2);
            let mut in1 = NFTData { name: vec![0u8; 16], hash: blake2b_160(&conc), fishes: 9 };
            in1.name[0..4].copy_from_slice(b"123$");
            if run_random_fight(&in0, &in1, &bind1, &bind2) {
                win_1_count += 1;
            } else {
                win_2_count += 1;
            }
        }
        println!(
            "k is {}, 1 Win count:{}, 2 Win count:{}, Even count:{}",
            k, win_1_count, win_2_count, all - win_1_count - win_2_count
        );
    }
}

#[test]
fn nft_fighting_test_fighting_prob() {
    let all = 200;
    let mut win_1_count = 0;
    let mut win_2_count = 0;
    for _ in 0..all {
        let bind1 = random_20bytes();
        let bind2 = random_20bytes();
        let gen = |binding: &[u8]| -> NFTData {
            let mut conc = random_20bytes();
            conc.extend_from_slice(binding);
            let hash = blake2b_160(&conc);
            let s = Statistics::from_hash(&hash);
            let fishes = 100 - (s.hp as i32 + s.atk as i32 + s.def as i32 + s.lck as i32) / 5;
            let mut name = vec![0u8; 16];
            name[0..4].copy_from_slice(b"cat$");
            NFTData { name, hash, fishes }
        };
        let in0 = gen(&bind1);
        let in1 = gen(&bind2);
        if run_random_fight(&in0, &in1, &bind1, &bind2) {
            win_1_count += 1;
        } else {
            win_2_count += 1;
        }
    }
    println!(
        "1 Win count:{}, 2 Win count:{}, Even count:{}",
        win_1_count, win_2_count, all - win_1_count - win_2_count
    );
}
