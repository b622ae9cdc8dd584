use vstd::prelude::*;
use vstd::arithmetic::div_mod::lemma_div_is_ordered;
use vstd::arithmetic::div_mod::lemma_div_by_multiple;
use vstd::arithmetic::div_mod::lemma_div_pos_is_pos;
use vstd::arithmetic::div_mod::lemma_fundamental_div_mod;
use vstd::arithmetic::div_mod::lemma_fundamental_div_mod_converse;

verus! {

/// The platform cut of a gross amount: `floor(amount * fee_bps / 10000)`,
/// where 10000 basis points stand for 100%.
pub open spec fn spec_fee(amount: int, fee_bps: int) -> int {
    amount * fee_bps / 10000
}

/// What the payee is credited: the gross amount less the platform cut.
pub open spec fn spec_net(amount: int, fee_bps: int) -> int {
    amount - spec_fee(amount, fee_bps)
}

/// Law: for every amount and every fee rate of at most 10000 basis points,
/// the fee is between zero and the amount, and fee plus net give back the
/// gross amount exactly.
pub proof fn lemma_fee_split(amount: int, fee_bps: int)
    requires
        0 <= amount,
        0 <= fee_bps <= 10000,
    ensures
        0 <= spec_fee(amount, fee_bps) <= amount,
        spec_fee(amount, fee_bps) + spec_net(amount, fee_bps) == amount,
        0 <= spec_net(amount, fee_bps) <= amount,
{
    assert(0 <= amount * fee_bps && amount * fee_bps <= amount * 10000) by (nonlinear_arith)
        requires
            0 <= amount,
            0 <= fee_bps <= 10000,
    ;
    lemma_div_pos_is_pos(amount * fee_bps, 10000);
    lemma_div_is_ordered(amount * fee_bps, amount * 10000, 10000);
    lemma_div_by_multiple(amount, 10000);
}

/// Split a gross amount into the platform fee and the net amount credited to
/// the payee, with floor division, exactly as `spec_fee` and `spec_net` say.
pub fn split_fee(amount: u128, fee_bps: u64) -> (r: (u128, u128))
    requires
        fee_bps <= 10000,
    ensures
        r.0 == spec_fee(amount as int, fee_bps as int),
        r.1 == spec_net(amount as int, fee_bps as int),
        r.0 + r.1 == amount,
        r.0 <= amount,
{
    proof {
        lemma_fee_split(amount as int, fee_bps as int);
    }
    let q: u128 = amount / 10000;
    let rem: u128 = amount % 10000;
    let bps: u128 = fee_bps as u128;
    proof {
        lemma_fundamental_div_mod(amount as int, 10000);
        assert(rem * bps < 100000000) by (nonlinear_arith)
            requires
                0 <= rem < 10000,
                0 <= bps <= 10000,
        ;
    }
    let low: u128 = (rem * bps) / 10000;
    proof {
        lemma_fundamental_div_mod((rem * bps) as int, 10000);
        assert(low <= rem) by (nonlinear_arith)
            requires
                (low as int) * 10000 <= (rem as int) * (bps as int),
                0 <= bps <= 10000,
                0 <= rem,
                0 <= low,
        ;
        assert((q as int) * (bps as int) + low <= amount) by (nonlinear_arith)
            requires
                amount == 10000 * (q as int) + rem,
                0 <= q,
                0 <= rem,
                0 <= bps <= 10000,
                0 <= low <= rem,
        ;
    }
    let fee: u128 = q * bps + low;
    proof {
        let a = amount as int;
        let b = bps as int;
        let qi = q as int;
        let ri = rem as int;
        let lr = (ri * b) % 10000;
        assert(a * b == (qi * b + (ri * b) / 10000) * 10000 + lr) by (nonlinear_arith)
            requires
                a == 10000 * qi + ri,
                ri * b == 10000 * ((ri * b) / 10000) + lr,
        ;
        lemma_fundamental_div_mod_converse(a * b, 10000, qi * b + (ri * b) / 10000, lr);
    }
    (fee, amount - fee)
}

} // verus!
