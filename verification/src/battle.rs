//! The battle resolver: damage, winner certificate, economy update,
//! and cryptographic rebinding of the loser's identity.

use crate::bytes::{append_bytes, bytes_eq, bytes_views};
use crate::error::Error;
use crate::hashing::{blake2b160, hash160_of};
use crate::record::{rec_views, NFTData, NFTView};
use crate::stats::{spec_stats, Statistics};
use vstd::arithmetic::div_mod::{lemma_fundamental_div_mod, lemma_mod_bound, lemma_multiply_divide_lt};
use vstd::arithmetic::mul::lemma_mul_inequality;
use vstd::prelude::*;

verus! {

/// Damage an attacker deals per round: attack reduced by the
/// defender's defense, itself softened by the defender's luck. The
/// divisor is positive because defense and luck lie in `[1, 100]`.
pub open spec fn spec_hurt(atk: u8, def: u8, lck: u8) -> int
    recommends
        1 <= atk <= 100,
        1 <= def <= 100,
        1 <= lck <= 100,
{
    atk - (atk * def) / (250 - 2 * lck + def)
}

/// Per-round damage is at least one and at most the raw attack.
pub proof fn lemma_hurt_in_range(atk: u8, def: u8, lck: u8)
    requires
        1 <= atk <= 100,
        1 <= def <= 100,
        1 <= lck <= 100,
    ensures
        1 <= spec_hurt(atk, def, lck) <= atk,
{
    let div = 250 - 2 * (lck as int) + def;
    assert((atk as int) * def < div * atk) by (nonlinear_arith)
        requires
            1 <= atk,
            (def as int) < div,
    ;
    lemma_multiply_divide_lt((atk as int) * def, div, atk as int);
}

/// Computes the per-round damage.
pub fn hurt(atk: u8, def: u8, lck: u8) -> (r: u16)
    requires
        1 <= atk <= 100,
        1 <= def <= 100,
        1 <= lck <= 100,
    ensures
        r == spec_hurt(atk, def, lck),
        1 <= r <= atk,
{
    proof {
        lemma_hurt_in_range(atk, def, lck);
    }
    let a = atk as u16;
    let d = def as u16;
    let l = lck as u16;
    let div = 250 - 2 * l + d;
    assert(a * d <= 10000) by (nonlinear_arith)
        requires
            a <= 100,
            d <= 100,
    ;
    let red = (a * d) / div;
    a - red
}

/// Which slot a round certificate determines as winner, if any.
#[derive(Clone, Copy, Debug, PartialEq, Eq, Structural)]
pub enum Winner {
    Slot0,
    Slot1,
    Undecided,
}

/// Slot 0's winner inequality: by round `n` slot 0 has dealt five
/// times slot 1's hit points, and by round `n - 1` slot 1 had not
/// yet dealt slot 0's.
pub open spec fn slot0_wins(s0: Statistics, s1: Statistics, n: u16) -> bool {
    n * spec_hurt(s0.atk, s1.def, s1.lck) >= 5 * s1.hp && (n - 1) * spec_hurt(
        s1.atk,
        s0.def,
        s0.lck,
    ) < 5 * s0.hp
}

/// Slot 1's winner inequality: at round `n` slot 0 has not yet dealt
/// slot 1's scaled hit points, but slot 1 has dealt slot 0's.
pub open spec fn slot1_wins(s0: Statistics, s1: Statistics, n: u16) -> bool {
    n * spec_hurt(s0.atk, s1.def, s1.lck) < 5 * s1.hp && n * spec_hurt(s1.atk, s0.def, s0.lck)
        >= 5 * s0.hp
}

/// The winner the certificate determines.
pub open spec fn spec_winner(s0: Statistics, s1: Statistics, n: u16) -> Winner {
    if slot0_wins(s0, s1, n) {
        Winner::Slot0
    } else if slot1_wins(s0, s1, n) {
        Winner::Slot1
    } else {
        Winner::Undecided
    }
}

/// Winner exclusivity: for fixed attributes and certificate, the two
/// winner inequalities never both hold.
pub proof fn lemma_winner_exclusive(s0: Statistics, s1: Statistics, n: u16)
    ensures
        !(slot0_wins(s0, s1, n) && slot1_wins(s0, s1, n)),
{
}

/// Checks the submitted round certificate `n`.
pub fn decide_winner(s0: &Statistics, s1: &Statistics, n: u16) -> (r: Winner)
    requires
        s0.wf(),
        s1.wf(),
        n >= 1,
    ensures
        r == spec_winner(*s0, *s1, n),
{
    let h0 = hurt(s0.atk, s1.def, s1.lck);
    let h1 = hurt(s1.atk, s0.def, s0.lck);
    let n32 = n as u32;
    assert(n32 * (h0 as u32) <= 65535 * 100) by (nonlinear_arith)
        requires
            n32 <= 65535,
            h0 <= 100,
    ;
    assert(n32 * (h1 as u32) <= 65535 * 100) by (nonlinear_arith)
        requires
            n32 <= 65535,
            h1 <= 100,
    ;
    assert((n32 - 1) * (h1 as u32) <= 65535 * 100) by (nonlinear_arith)
        requires
            1 <= n32 <= 65535,
            h1 <= 100,
    ;
    let dealt0 = n32 * (h0 as u32);
    let dealt1 = n32 * (h1 as u32);
    let dealt1_prev = (n32 - 1) * (h1 as u32);
    let goal1 = 5 * (s1.hp as u32);
    let goal0 = 5 * (s0.hp as u32);
    if dealt0 >= goal1 && dealt1_prev < goal0 {
        Winner::Slot0
    } else if dealt0 < goal1 && dealt1 >= goal0 {
        Winner::Slot1
    } else {
        Winner::Undecided
    }
}

/// The least round at which `h` damage per round reaches goal `g`:
/// the round before it falls short, and the round itself does not.
proof fn lemma_least_crossing_round(g: int, h: int) -> (q: int)
    requires
        1 <= g,
        1 <= h,
    ensures
        q == (g + h - 1) / h,
        q * h >= g,
        (q - 1) * h < g,
        1 <= q <= g,
{
    let q = (g + h - 1) / h;
    let m = (g + h - 1) % h;
    lemma_fundamental_div_mod(g + h - 1, h);
    lemma_mod_bound(g + h - 1, h);
    assert(h * q == g + h - 1 - m);
    assert(q * h == h * q) by (nonlinear_arith);
    assert((q - 1) * h == q * h - h) by (nonlinear_arith);
    assert(q >= 1) by (nonlinear_arith)
        requires
            q * h >= g,
            g >= 1,
            h >= 1,
    ;
    assert(q - 1 <= (q - 1) * h) by (nonlinear_arith)
        requires
            q - 1 >= 0,
            h >= 1,
    ;
    q
}

/// A winner certificate always exists: each side deals at least one
/// damage per round, so the least round at which either side's total
/// crosses its goal decides the battle, and that round is at most
/// five times a defender's hit points.
pub proof fn lemma_certificate_exists(s0: Statistics, s1: Statistics)
    requires
        s0.wf(),
        s1.wf(),
    ensures
        exists|n: u16| 1 <= n <= 500 && spec_winner(s0, s1, n) != Winner::Undecided,
{
    let h0 = spec_hurt(s0.atk, s1.def, s1.lck);
    let h1 = spec_hurt(s1.atk, s0.def, s0.lck);
    lemma_hurt_in_range(s0.atk, s1.def, s1.lck);
    lemma_hurt_in_range(s1.atk, s0.def, s0.lck);
    let g1 = 5 * s1.hp as int;
    let g0 = 5 * s0.hp as int;
    let i0 = lemma_least_crossing_round(g1, h0);
    let i1 = lemma_least_crossing_round(g0, h1);
    if i0 <= i1 {
        let n = i0 as u16;
        lemma_mul_inequality(i0 - 1, i1 - 1, h1);
        assert(slot0_wins(s0, s1, n));
        assert(spec_winner(s0, s1, n) != Winner::Undecided);
    } else {
        let n = i1 as u16;
        lemma_mul_inequality(i1, i0 - 1, h0);
        assert(slot1_wins(s0, s1, n));
        assert(spec_winner(s0, s1, n) != Winner::Undecided);
    }
}

/// The loser's balance after battle: a tenth of the winner's attack
/// is forfeited, and a balance landing exactly on zero springs the
/// hidden jackpot.
pub open spec fn spec_loser_fishes(before: int, winner_atk: u8) -> int {
    let f = before - winner_atk / 10;
    if f == 0 {
        999
    } else {
        f
    }
}

/// The winner's balance after battle: a tenth of the loser's hit
/// points is collected.
pub open spec fn spec_winner_fishes(before: int, loser_hp: u8) -> int {
    before + loser_hp / 10
}

/// The checks that settle a decided battle, given the digest the
/// loser's identity must have been rebound to.
pub open spec fn spec_settle(
    win_in: NFTView,
    lose_in: NFTView,
    win_out: NFTView,
    lose_out: NFTView,
    rebind: Seq<u8>,
) -> Result<(), Error> {
    let sw = spec_stats(win_in.hash);
    let sl = spec_stats(lose_in.hash);
    if win_out.fishes != spec_winner_fishes(win_in.fishes, sl.hp) || lose_out.fishes
        != spec_loser_fishes(lose_in.fishes, sw.atk) {
        Err(Error::WrongResult)
    } else if lose_out.hash != rebind || win_in.hash != win_out.hash {
        Err(Error::WrongResult)
    } else {
        Ok(())
    }
}

/// Settles a decided battle: the economy update and the identity
/// rebinding, with the required rebind digest supplied by the caller.
pub fn settle_battle(
    win_in: &NFTData,
    lose_in: &NFTData,
    win_out: &NFTData,
    lose_out: &NFTData,
    rebind: &Vec<u8>,
) -> (r: Result<(), Error>)
    requires
        win_in.wf(),
        lose_in.wf(),
    ensures
        r == spec_settle(win_in@, lose_in@, win_out@, lose_out@, rebind@),
{
    let sw = Statistics::from_hash(&win_in.hash);
    let sl = Statistics::from_hash(&lose_in.hash);
    let mut loser_fishes: i64 = lose_in.fishes as i64 - (sw.atk / 10) as i64;
    if loser_fishes == 0 {
        loser_fishes = 999;
    }
    let winner_fishes: i64 = win_in.fishes as i64 + (sl.hp / 10) as i64;
    if win_out.fishes as i64 != winner_fishes || lose_out.fishes as i64 != loser_fishes {
        return Err(Error::WrongResult);
    }
    if !bytes_eq(&lose_out.hash, rebind) || !bytes_eq(&win_in.hash, &win_out.hash) {
        return Err(Error::WrongResult);
    }
    Ok(())
}

/// The battle verdict on two before/after record pairs, the
/// owner-binding hash of each slot on each side, the number of
/// inputs in the whole transition, and the submitted certificate.
pub open spec fn spec_battle(
    ins: Seq<NFTView>,
    outs: Seq<NFTView>,
    bin: Seq<Seq<u8>>,
    bout: Seq<Seq<u8>>,
    input_count: int,
    n: u16,
) -> Result<(), Error>
    recommends
        ins.len() == 2,
        outs.len() == 2,
        bin.len() == 2,
        bout.len() == 2,
        n >= 1,
{
    if input_count > 2 {
        Err(Error::WrongInputOutput)
    } else if ins[0].fishes < 0 || ins[1].fishes < 0 {
        Err(Error::UnmatchPlayer)
    } else if ins[0].name != outs[0].name || ins[1].name != outs[1].name {
        Err(Error::WrongResult)
    } else if bin[0] != bout[0] || bin[1] != bout[1] {
        Err(Error::UnmatchPlayer)
    } else {
        let s0 = spec_stats(ins[0].hash);
        let s1 = spec_stats(ins[1].hash);
        match spec_winner(s0, s1, n) {
            Winner::Slot0 => spec_settle(
                ins[0],
                ins[1],
                outs[0],
                outs[1],
                hash160_of(ins[1].hash + bin[0]),
            ),
            Winner::Slot1 => spec_settle(
                ins[1],
                ins[0],
                outs[1],
                outs[0],
                hash160_of(ins[0].hash + bin[1]),
            ),
            Winner::Undecided => Err(Error::WrongResult),
        }
    }
}

/// Validates a battle transition: the structural checks in order,
/// winner determination from the submitted certificate, then the
/// economy and rebinding checks.
pub fn validate_battle(
    ins: &Vec<NFTData>,
    outs: &Vec<NFTData>,
    bin: &Vec<Vec<u8>>,
    bout: &Vec<Vec<u8>>,
    input_count: usize,
    n: u16,
) -> (r: Result<(), Error>)
    requires
        ins@.len() == 2,
        outs@.len() == 2,
        bin@.len() == 2,
        bout@.len() == 2,
        n >= 1,
        forall|i: int| 0 <= i < 2 ==> (#[trigger] ins@[i]).wf(),
        forall|i: int| 0 <= i < 2 ==> (#[trigger] outs@[i]).wf(),
    ensures
        r == spec_battle(
            rec_views(ins@),
            rec_views(outs@),
            bytes_views(bin@),
            bytes_views(bout@),
            input_count as int,
            n,
        ),
{
    if input_count > 2 {
        return Err(Error::WrongInputOutput);
    }
    if ins[0].fishes < 0 || ins[1].fishes < 0 {
        return Err(Error::UnmatchPlayer);
    }
    if !bytes_eq(&ins[0].name, &outs[0].name) || !bytes_eq(&ins[1].name, &outs[1].name) {
        return Err(Error::WrongResult);
    }
    if !bytes_eq(&bin[0], &bout[0]) || !bytes_eq(&bin[1], &bout[1]) {
        return Err(Error::UnmatchPlayer);
    }
    let s0 = Statistics::from_hash(&ins[0].hash);
    let s1 = Statistics::from_hash(&ins[1].hash);
    match decide_winner(&s0, &s1, n) {
        Winner::Slot0 => {
            let mut conc: Vec<u8> = Vec::new();
            append_bytes(&mut conc, &ins[1].hash);
            append_bytes(&mut conc, &bin[0]);
            let digest = blake2b160(&conc);
            proof {
                assert(conc@ =~= rec_views(ins@)[1].hash + bytes_views(bin@)[0]);
            }
            settle_battle(&ins[0], &ins[1], &outs[0], &outs[1], &digest)
        },
        Winner::Slot1 => {
            let mut conc: Vec<u8> = Vec::new();
            append_bytes(&mut conc, &ins[0].hash);
            append_bytes(&mut conc, &bin[1]);
            let digest = blake2b160(&conc);
            proof {
                assert(conc@ =~= rec_views(ins@)[0].hash + bytes_views(bin@)[1]);
            }
            settle_battle(&ins[1], &ins[0], &outs[1], &outs[0], &digest)
        },
        Winner::Undecided => Err(Error::WrongResult),
    }
}

} // verus!
