//! Time and proportions.

use vstd::prelude::*;

verus! {

/// Nanoseconds in one second.
pub const NANOS_PER_SEC: u64 = 1_000_000_000;

/// Converts whole seconds to nanoseconds.
pub fn sec_to_nano(sec: u32) -> (nanos: u64)
    ensures
        nanos == sec * NANOS_PER_SEC,
{
    let wide: u64 = sec.into();
    assert(sec * NANOS_PER_SEC <= u64::MAX) by (nonlinear_arith)
        requires
            sec <= u32::MAX,
            NANOS_PER_SEC == 1_000_000_000,
    ;
    wide * NANOS_PER_SEC
}

/// Time passed between `since` and `now`; zero when `now` lies before `since`.
pub open spec fn elapsed(now: u64, since: u64) -> u64 {
    if now >= since {
        (now - since) as u64
    } else {
        0
    }
}

/// Computes [`elapsed`].
pub fn elapsed_since(now: u64, since: u64) -> (d: u64)
    ensures
        d == elapsed(now, since),
{
    if now >= since {
        now - since
    } else {
        0
    }
}

/// `amount * rate / scale`, rounded down, in unbounded arithmetic.
pub open spec fn portion(amount: int, rate: int, scale: int) -> int
    recommends
        scale > 0,
{
    amount * rate / scale
}

/// Computes [`portion`] without an intermediate overflow: the quotient and the
/// remainder of `amount` by `scale` are scaled separately.
pub fn portion_of(amount: u128, rate: u32, scale: u32) -> (part: u128)
    requires
        0 < scale,
        rate <= scale,
    ensures
        part == portion(amount as int, rate as int, scale as int),
        part <= amount,
{
    let wide_rate: u128 = rate.into();
    let wide_scale: u128 = scale.into();
    let whole: u128 = amount / wide_scale;
    let rest: u128 = amount % wide_scale;
    proof {
        lemma_portion_split(amount as int, rate as int, scale as int);
        assert(whole * wide_rate <= whole * wide_scale) by (nonlinear_arith)
            requires
                wide_rate <= wide_scale,
                0 <= whole,
        ;
        assert(rest * wide_rate <= wide_scale * wide_scale) by (nonlinear_arith)
            requires
                0 <= rest < wide_scale,
                0 <= wide_rate <= wide_scale,
        ;
        assert(wide_scale * wide_scale <= 0x1_0000_0000 * 0x1_0000_0000) by (nonlinear_arith)
            requires
                0 <= wide_scale < 0x1_0000_0000,
        ;
    }
    whole * wide_rate + rest * wide_rate / wide_scale
}

/// Splitting `amount` into whole multiples of `scale` and a rest does not change
/// its portion, and a portion at a rate of at most one is at most the amount.
pub proof fn lemma_portion_split(amount: int, rate: int, scale: int)
    requires
        0 <= amount,
        0 <= rate <= scale,
        0 < scale,
    ensures
        portion(amount, rate, scale) == (amount / scale) * rate + (amount % scale) * rate / scale,
        0 <= portion(amount, rate, scale) <= amount,
{
    let q = amount / scale;
    let r = amount % scale;
    assert(amount == q * scale + r) by {
        vstd::arithmetic::div_mod::lemma_fundamental_div_mod(amount, scale);
    }
    assert(amount * rate == (q * rate) * scale + r * rate) by (nonlinear_arith)
        requires
            amount == q * scale + r,
    ;
    assert(0 <= r * rate) by (nonlinear_arith)
        requires
            0 <= r,
            0 <= rate,
    ;
    assert(((q * rate) * scale + r * rate) / scale == q * rate + (r * rate) / scale) by {
        vstd::arithmetic::div_mod::lemma_fundamental_div_mod(r * rate, scale);
        let rq = (r * rate) / scale;
        let rr = (r * rate) % scale;
        assert((q * rate) * scale + r * rate == scale * (q * rate + rq) + rr) by (nonlinear_arith)
            requires
                r * rate == scale * rq + rr,
        ;
        vstd::arithmetic::div_mod::lemma_fundamental_div_mod_converse(
            (q * rate) * scale + r * rate,
            scale,
            q * rate + rq,
            rr,
        );
    }
    assert(r * rate / scale <= r) by {
        assert(r * rate <= r * scale) by (nonlinear_arith)
            requires
                0 <= r,
                0 <= rate <= scale,
        ;
        vstd::arithmetic::div_mod::lemma_div_is_ordered(r * rate, r * scale, scale);
        vstd::arithmetic::div_mod::lemma_div_multiples_vanish(r, scale);
    }
    assert(0 <= r * rate / scale) by {
        vstd::arithmetic::div_mod::lemma_div_pos_is_pos(r * rate, scale);
    }
    assert(q * rate <= q * scale) by (nonlinear_arith)
        requires
            0 <= q,
            0 <= rate <= scale,
    ;
    assert(0 <= q * rate) by (nonlinear_arith)
        requires
            0 <= q,
            0 <= rate,
    ;
    assert(0 <= q) by {
        vstd::arithmetic::div_mod::lemma_div_pos_is_pos(amount, scale);
    }
}

} // verus!
