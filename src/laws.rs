use vstd::prelude::*;
use crate::contract::{
    consensual_payout, consensual_refund, effective_time, is_live, paused_stream, resumed_stream,
    record_wf, stream_wf, PaymentStreamContract,
};
use crate::types::{Address, Error, Outcome, Stream, StreamStatus};
use crate::vesting::{
    lemma_vested_bounds, lemma_vested_monotonic, lemma_vested_shift, protocol_fee,
    schedule_valid, withdrawable_at,
};

verus! {

/// Every stream of a well-formed contract has `0 <= withdrawn <= balance <= total`.
/// Every operation keeps the contract well-formed, so this holds at all times.
pub proof fn lemma_withdrawn_within_total(c: &PaymentStreamContract, stream_id: u64)
    requires
        c.wf(),
        c.has_stream(stream_id),
    ensures
        0 <= c.record(stream_id).stream.withdrawn_amount,
        c.record(stream_id).stream.withdrawn_amount <= c.record(stream_id).stream.balance,
        c.record(stream_id).stream.balance <= c.record(stream_id).stream.total_amount,
        c.record(stream_id).metrics.total_withdrawn == c.record(stream_id).stream.withdrawn_amount,
{
    assert(record_wf(c.records()[stream_id - 1], stream_id - 1, c.clock() as int));
}

/// A withdrawal of `amount` raises `withdrawn_amount` by exactly `amount`, of which the
/// recipient receives `amount - fee` and the fee collector `fee`. Summed over a stream's
/// withdrawals, the recipient's receipts are `withdrawn_amount` less the fees collected.
pub proof fn lemma_withdrawal_split(
    c: &PaymentStreamContract,
    post: &PaymentStreamContract,
    caller: Address,
    stream_id: u64,
    amount: i128,
    o: Outcome,
)
    requires
        c.wf(),
        c.withdraw_error(caller, stream_id, amount) is None,
        c.withdraw_done(post, stream_id, amount, o),
    ensures
        ({
            let fee = protocol_fee(amount as int, c.fee_rate() as int);
            let s = c.record(stream_id).stream;
            let t = o.transfers@;
            &&& post.record(stream_id).stream.withdrawn_amount == s.withdrawn_amount + amount
            &&& 0 <= fee <= amount
            &&& t[0].to == s.recipient
            &&& t[0].amount == amount - fee
            &&& fee > 0 ==> t.len() == 2 && t[1].amount == fee
                && t[1].to == c.config().unwrap().fee_collector
            &&& fee == 0 ==> t.len() == 1
        }),
{
    assert(record_wf(c.records()[stream_id - 1], stream_id - 1, c.clock() as int));
    let rate = c.fee_rate() as int;
    assert(0 <= rate <= 500);
    assert(amount * rate <= amount * 10000) by (nonlinear_arith)
        requires amount > 0, 0 <= rate <= 500;
    assert(0 <= amount * rate) by (nonlinear_arith)
        requires amount > 0, 0 <= rate;
    vstd::arithmetic::div_mod::lemma_div_is_ordered(amount * rate, amount * 10000, 10000);
    vstd::arithmetic::div_mod::lemma_div_is_ordered(0, amount * rate, 10000);
    assert((amount * 10000) / 10000 == amount as int) by (nonlinear_arith);
}

/// While a stream stays active and nothing is withdrawn, what it offers for withdrawal
/// never decreases as time advances.
pub proof fn lemma_withdrawable_monotonic(s: Stream, t1: int, t2: int)
    requires
        schedule_valid(s),
        s.status == StreamStatus::Active,
        t1 <= t2,
    ensures
        withdrawable_at(s, t1) <= withdrawable_at(s, t2),
{
    lemma_vested_monotonic(s, t1, t2);
}

/// Pausing an active stream at `tp` and resuming it at `tr` shifts its vesting curve by
/// exactly `tr - tp`: afterwards, what is withdrawable at `t` is what would have been
/// withdrawable at `t - (tr - tp)` without the pause.
pub proof fn lemma_pause_resume_shift(s: Stream, tp: u64, tr: u64, t: int)
    requires
        schedule_valid(s),
        s.status == StreamStatus::Active,
        tp <= tr,
        s.end_time + (tr - tp) <= u64::MAX,
    ensures
        withdrawable_at(resumed_stream(paused_stream(s, tp), tr), t) == withdrawable_at(
            s,
            t - (tr - tp),
        ),
{
    let r = resumed_stream(paused_stream(s, tp), tr);
    lemma_vested_shift(s, r, tr - tp, t);
}

/// A completed stream has paid out its whole escrow, which is its whole total.
pub proof fn lemma_completed_stream_settled(c: &PaymentStreamContract, stream_id: u64)
    requires
        c.wf(),
        c.has_stream(stream_id),
        c.record(stream_id).stream.status == StreamStatus::Completed,
    ensures
        c.record(stream_id).stream.withdrawn_amount == c.record(stream_id).stream.balance,
        c.record(stream_id).stream.balance == c.record(stream_id).stream.total_amount,
{
    assert(record_wf(c.records()[stream_id - 1], stream_id - 1, c.clock() as int));
}

/// A consensual cancellation splits the total exactly: the recipient's payout, the
/// sender's refund and what was already withdrawn add up to `total_amount`, and neither
/// share is negative.
pub proof fn lemma_consensual_split(s: Stream, now: int)
    requires
        stream_wf(s, now),
        is_live(s),
    ensures
        consensual_payout(s, now) + consensual_refund(s, now) + s.withdrawn_amount
            == s.total_amount,
        consensual_payout(s, now) >= 0,
        consensual_refund(s, now) >= 0,
{
    lemma_vested_bounds(s, effective_time(s, now));
}

/// A deposit that would lift the balance above the total is rejected with
/// `DepositExceedsTotal`, and a deposit of zero or less with `InvalidAmount`.
pub proof fn lemma_deposit_boundary(
    c: &PaymentStreamContract,
    stream_id: u64,
    amount: i128,
)
    requires
        c.wf(),
        c.has_stream(stream_id),
        is_live(c.record(stream_id).stream),
    ensures
        ({
            let s = c.record(stream_id).stream;
            &&& amount <= 0 ==> c.deposit_error(s.sender, stream_id, amount) == Some(Error::InvalidAmount)
            &&& amount > 0 && s.balance + amount > s.total_amount ==> c.deposit_error(
                s.sender,
                stream_id,
                amount,
            ) == Some(Error::DepositExceedsTotal)
        }),
{
}

/// No operation that takes an amount accepts zero or a negative one.
pub proof fn lemma_nonpositive_amounts_rejected(
    c: &PaymentStreamContract,
    caller: Address,
    stream_id: u64,
    amount: i128,
    start_time: u64,
    end_time: u64,
)
    requires
        amount <= 0,
    ensures
        c.deposit_error(caller, stream_id, amount) is Some,
        c.withdraw_error(caller, stream_id, amount) is Some,
        c.create_error(caller, caller, amount, 0, start_time, end_time) is Some,
{
}

} // verus!
