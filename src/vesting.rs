use vstd::prelude::*;
use vstd::arithmetic::div_mod::{
    lemma_div_is_ordered, lemma_fundamental_div_mod, lemma_hoist_over_denominator,
};
use vstd::arithmetic::mul::lemma_mul_inequality;
use crate::types::{Stream, StreamStatus};

verus! {

/// The largest protocol fee rate, in basis points (5%).
pub const MAX_FEE: u32 = 500;

pub open spec fn clamp_nonneg(x: int) -> int {
    if x < 0 { 0 } else { x }
}

pub open spec fn min_int(a: int, b: int) -> int {
    if a <= b { a } else { b }
}

/// The schedule is coherent: a non-negative total, and a window that pauses have not consumed.
pub open spec fn schedule_valid(s: Stream) -> bool {
    &&& s.total_amount >= 0
    &&& s.start_time + s.total_paused_duration < s.end_time
}

/// Length of the vesting window once the time spent paused is taken out.
pub open spec fn vesting_duration(s: Stream) -> int {
    clamp_nonneg(s.end_time - s.start_time - s.total_paused_duration)
}

/// Time that has counted towards vesting at time `t`.
pub open spec fn vesting_elapsed(s: Stream, t: int) -> int {
    if t <= s.start_time {
        0
    } else {
        clamp_nonneg(min_int(t, s.end_time as int) - s.start_time - s.total_paused_duration)
    }
}

/// Amount vested at time `t`: `total * elapsed / duration`, rounded down.
pub open spec fn vested_at(s: Stream, t: int) -> int {
    if t <= s.start_time || vesting_duration(s) == 0 {
        0
    } else {
        s.total_amount * vesting_elapsed(s, t) / vesting_duration(s)
    }
}

/// What the recipient may take out at time `t`: nothing unless the stream is active.
pub open spec fn withdrawable_at(s: Stream, t: int) -> int {
    if s.status != StreamStatus::Active {
        0
    } else {
        vested_at(s, t) - s.withdrawn_amount
    }
}

/// The protocol fee on `amount` at `rate` basis points, rounded down.
pub open spec fn protocol_fee(amount: int, rate: int) -> int {
    if rate == 0 || amount <= 0 {
        0
    } else {
        amount * rate / 10000
    }
}

/// The fee agrees with its overflow-free form,
/// `(amount / 10000) * rate + ((amount % 10000) * rate) / 10000`.
pub proof fn lemma_fee_split_form(amount: int, rate: int)
    requires
        amount > 0,
        rate > 0,
    ensures
        protocol_fee(amount, rate) == (amount / 10000) * rate + ((amount % 10000) * rate) / 10000,
{
    let hi = amount / 10000;
    let lo = amount % 10000;
    lemma_fundamental_div_mod(amount, 10000);
    assert(amount * rate == (hi * rate) * 10000 + lo * rate) by (nonlinear_arith)
        requires amount == 10000 * hi + lo;
    lemma_hoist_over_denominator(lo * rate, hi * rate, 10000);
}

pub proof fn lemma_elapsed_within_duration(s: Stream, t: int)
    requires
        schedule_valid(s),
    ensures
        0 <= vesting_elapsed(s, t) <= vesting_duration(s),
        vesting_duration(s) > 0,
{
}

/// What has vested lies between nothing and the total.
pub proof fn lemma_vested_bounds(s: Stream, t: int)
    requires
        schedule_valid(s),
    ensures
        0 <= vested_at(s, t) <= s.total_amount,
{
    lemma_elapsed_within_duration(s, t);
    if t > s.start_time {
        let e = vesting_elapsed(s, t);
        let d = vesting_duration(s);
        let tot = s.total_amount as int;
        lemma_mul_inequality(e, d, tot);
        assert(e * tot == tot * e) by (nonlinear_arith);
        assert(d * tot == tot * d) by (nonlinear_arith);
        lemma_div_is_ordered(tot * e, tot * d, d);
        assert((tot * d) / d == tot) by (nonlinear_arith)
            requires d > 0;
        assert(0 <= tot * e) by (nonlinear_arith)
            requires tot >= 0, e >= 0;
        lemma_div_is_ordered(0, tot * e, d);
    }
}

/// Vesting never goes backwards as time advances.
pub proof fn lemma_vested_monotonic(s: Stream, t1: int, t2: int)
    requires
        schedule_valid(s),
        t1 <= t2,
    ensures
        vested_at(s, t1) <= vested_at(s, t2),
{
    lemma_vested_bounds(s, t1);
    lemma_vested_bounds(s, t2);
    if t1 > s.start_time {
        let e1 = vesting_elapsed(s, t1);
        let e2 = vesting_elapsed(s, t2);
        let tot = s.total_amount as int;
        assert(e1 <= e2);
        lemma_mul_inequality(e1, e2, tot);
        assert(e1 * tot == tot * e1 && e2 * tot == tot * e2) by (nonlinear_arith);
        lemma_div_is_ordered(tot * e1, tot * e2, vesting_duration(s));
    }
}

/// Stretching the window and the paused time by the same `d` delays the whole curve by `d`.
pub proof fn lemma_vested_shift(s: Stream, s2: Stream, d: int, t: int)
    requires
        schedule_valid(s),
        d >= 0,
        s2.total_amount == s.total_amount,
        s2.start_time == s.start_time,
        s2.end_time == s.end_time + d,
        s2.total_paused_duration == s.total_paused_duration + d,
    ensures
        vested_at(s2, t) == vested_at(s, t - d),
{
    assert(vesting_duration(s2) == vesting_duration(s));
    if t > s.start_time {
        if t - d <= s.start_time {
            assert(vesting_elapsed(s2, t) == 0);
            assert(s2.total_amount * 0 == 0);
        } else {
            assert(vesting_elapsed(s2, t) == vesting_elapsed(s, t - d));
        }
    }
}

/// `total * e / d` computed without an intermediate wider than 128 bits.
fn scaled_share(total: u128, e: u64, d: u64) -> (r: u128)
    requires
        d > 0,
        e <= d,
        total <= i128::MAX,
    ensures
        r as int == (total as int) * (e as int) / (d as int),
        r <= total,
{
    let q: u128 = total / (d as u128);
    let rem: u128 = total % (d as u128);
    let ghost (ti, ei, di, qi, ri) = (total as int, e as int, d as int, q as int, rem as int);
    proof {
        lemma_fundamental_div_mod(ti, di);
        assert(qi * ei <= qi * di) by (nonlinear_arith)
            requires ei <= di, qi >= 0;
        assert(ri * ei <= 0xffff_ffff_ffff_ffff * 0xffff_ffff_ffff_ffff) by (nonlinear_arith)
            requires 0 <= ri < di, di <= 0xffff_ffff_ffff_ffff, 0 <= ei <= 0xffff_ffff_ffff_ffff;
    }
    let whole: u128 = q * (e as u128);
    let part: u128 = rem * (e as u128);
    let frac: u128 = part / (d as u128);
    proof {
        assert(ti * ei == (qi * ei) * di + ri * ei) by (nonlinear_arith)
            requires ti == di * qi + ri;
        lemma_hoist_over_denominator(ri * ei, qi * ei, d as nat);
        assert(ti * ei <= ti * di) by (nonlinear_arith)
            requires ei <= di, ti >= 0;
        lemma_div_is_ordered(ti * ei, ti * di, di);
        assert((ti * di) / di == ti) by (nonlinear_arith)
            requires di > 0;
        assert(0 <= ri * ei) by (nonlinear_arith)
            requires ri >= 0, ei >= 0;
        lemma_div_is_ordered(0, ri * ei, di);
    }
    whole + frac
}

/// Amount of `stream` vested at time `now`.
pub fn vested_amount(stream: &Stream, now: u64) -> (r: i128)
    requires
        schedule_valid(*stream),
    ensures
        r == vested_at(*stream, now as int),
        0 <= r <= stream.total_amount,
{
    proof {
        lemma_vested_bounds(*stream, now as int);
        lemma_elapsed_within_duration(*stream, now as int);
    }
    if now <= stream.start_time {
        return 0;
    }
    let raw_elapsed: u64 = if now >= stream.end_time {
        stream.end_time - stream.start_time
    } else {
        now - stream.start_time
    };
    let elapsed: u64 = raw_elapsed.saturating_sub(stream.total_paused_duration);
    let duration: u64 = (stream.end_time - stream.start_time).saturating_sub(
        stream.total_paused_duration,
    );
    if duration == 0 {
        return 0;
    }
    let share: u128 = scaled_share(stream.total_amount as u128, elapsed, duration);
    share as i128
}

/// Amount of `stream` that may be withdrawn at time `now`; zero unless the stream is active.
pub fn withdrawable_at_time(stream: &Stream, now: u64) -> (r: i128)
    requires
        schedule_valid(*stream),
        0 <= stream.withdrawn_amount,
    ensures
        r == withdrawable_at(*stream, now as int),
{
    if stream.status != StreamStatus::Active {
        return 0;
    }
    let vested: i128 = vested_amount(stream, now);
    vested - stream.withdrawn_amount
}

/// The protocol fee taken from a withdrawal of `amount` at `rate` basis points.
pub fn calculate_protocol_fee(amount: i128, rate: u32) -> (r: i128)
    requires
        rate <= MAX_FEE,
    ensures
        r == protocol_fee(amount as int, rate as int),
        0 <= r,
        amount > 0 ==> r <= amount,
{
    if rate == 0 || amount <= 0 {
        return 0;
    }
    let a: u128 = amount as u128;
    let rt: u128 = rate as u128;
    let hi: u128 = a / 10000;
    let lo: u128 = a % 10000;
    let ghost (ai, ri, hii, loi) = (a as int, rt as int, hi as int, lo as int);
    proof {
        lemma_fundamental_div_mod(ai, 10000);
        assert(hii * ri <= ai * 500) by (nonlinear_arith)
            requires 0 <= hii <= ai, 0 <= ri <= 500;
        assert(loi * ri < 10000 * 500) by (nonlinear_arith)
            requires 0 <= loi < 10000, 0 <= ri <= 500;
        assert(ai * ri == (hii * ri) * 10000 + loi * ri) by (nonlinear_arith)
            requires ai == 10000 * hii + loi;
        lemma_hoist_over_denominator(loi * ri, hii * ri, 10000);
        assert(ai * ri <= ai * 10000) by (nonlinear_arith)
            requires ri <= 500, ai >= 0;
        lemma_div_is_ordered(ai * ri, ai * 10000, 10000);
        assert((ai * 10000) / 10000 == ai) by (nonlinear_arith);
        assert(0 <= loi * ri) by (nonlinear_arith)
            requires loi >= 0, ri >= 0;
        lemma_div_is_ordered(0, loi * ri, 10000);
    }
    let fee: u128 = hi * rt + (lo * rt) / 10000;
    fee as i128
}

} // verus!
