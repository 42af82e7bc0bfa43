use payment_stream::contract::PaymentStreamContract;
use payment_stream::types::{
    Address, CancelRequest, DelegatePolicy, Error, Event, FeeCollectedEvent, StreamDepositEvent,
    StreamPausedEvent, StreamResumedEvent, StreamStatus, Transfer,
};
use payment_stream::vesting::calculate_protocol_fee;

const CONTRACT: Address = Address(100);
const ADMIN: Address = Address(1);
const FEE_COLLECTOR: Address = Address(2);
const SENDER: Address = Address(3);
const RECIPIENT: Address = Address(4);
const DELEGATE: Address = Address(5);
const STRANGER: Address = Address(7);
const TOKEN: Address = Address(50);

fn contract_with(fee_rate: u32, policy: DelegatePolicy) -> PaymentStreamContract {
    let mut c = PaymentStreamContract::new(CONTRACT, policy, 0);
    c.initialize(ADMIN, ADMIN, FEE_COLLECTOR, fee_rate).unwrap();
    c
}

fn open(c: &mut PaymentStreamContract, total: i128, initial: i128, start: u64, end: u64) -> u64 {
    c.create_stream(SENDER, SENDER, RECIPIENT, TOKEN, total, initial, start, end).unwrap().0
}

fn pay(from: Address, to: Address, amount: i128) -> Transfer {
    Transfer { token: TOKEN, from, to, amount }
}

#[test]
fn scenario_half_way_vests_half() {
    let mut c = contract_with(0, DelegatePolicy::Additive);
    let id = open(&mut c, 1000, 1000, 0, 100);
    c.set_timestamp(50);
    assert_eq!(c.withdrawable_amount(id), Ok(500));
}

#[test]
fn scenario_withdraw_moves_escrow_to_recipient() {
    let mut c = contract_with(0, DelegatePolicy::Additive);
    let id = open(&mut c, 1000, 1000, 0, 100);
    c.set_timestamp(50);
    let o = c.withdraw(RECIPIENT, id, 300).unwrap();
    assert_eq!(o.transfers, vec![pay(CONTRACT, RECIPIENT, 300)]);
    assert!(o.events.is_empty());
    let s = c.get_stream(id).unwrap();
    assert_eq!(s.withdrawn_amount, 300);
    assert_eq!(s.balance - s.withdrawn_amount, 700);
}

#[test]
fn scenario_fee_on_withdrawal() {
    let mut c = contract_with(250, DelegatePolicy::Additive);
    let id = open(&mut c, 1000, 1000, 0, 100);
    c.set_timestamp(100);
    let o = c.withdraw(RECIPIENT, id, 1000).unwrap();
    assert_eq!(
        o.transfers,
        vec![pay(CONTRACT, RECIPIENT, 975), pay(CONTRACT, FEE_COLLECTOR, 25)]
    );
    assert_eq!(
        o.events,
        vec![Event::FeeCollected(FeeCollectedEvent { stream_id: id, amount: 25 })]
    );
    let s = c.get_stream(id).unwrap();
    assert_eq!(s.status, StreamStatus::Completed);
    assert_eq!(c.get_protocol_metrics().total_active_streams, 0);
}

#[test]
fn scenario_consensual_cancel_at_quarter() {
    let mut c = contract_with(0, DelegatePolicy::Additive);
    let id = open(&mut c, 1000, 1000, 0, 100);
    c.set_timestamp(25);
    c.request_cancel(id, RECIPIENT).unwrap();
    assert_eq!(
        c.get_cancel_request(id),
        Ok(Some(CancelRequest { stream_id: id, requester: RECIPIENT, created_at: 25 }))
    );
    let st = c.cancel_consensual(id, SENDER).unwrap();
    assert_eq!(st.recipient_payout, 250);
    assert_eq!(st.sender_refund, 750);
    assert_eq!(st.recipient_payout + st.sender_refund, 1000);
    assert_eq!(
        st.outcome.transfers,
        vec![pay(CONTRACT, RECIPIENT, 250), pay(CONTRACT, SENDER, 750)]
    );
    assert_eq!(c.get_stream(id).unwrap().status, StreamStatus::Canceled);
    assert_eq!(c.get_cancel_request(id), Ok(None));
}

#[test]
fn consensual_split_counts_earlier_withdrawals() {
    let mut c = contract_with(0, DelegatePolicy::Additive);
    let id = open(&mut c, 1000, 1000, 0, 100);
    c.set_timestamp(40);
    c.withdraw(RECIPIENT, id, 100).unwrap();
    c.request_cancel(id, SENDER).unwrap();
    assert_eq!(c.cancel_consensual(id, SENDER).unwrap_err(), Error::Unauthorized);
    let st = c.cancel_consensual(id, RECIPIENT).unwrap();
    assert_eq!(st.recipient_payout, 300);
    assert_eq!(st.sender_refund, 600);
    assert_eq!(st.recipient_payout + st.sender_refund + 100, 1000);
}

#[test]
fn consensual_cancel_failures() {
    let mut c = contract_with(0, DelegatePolicy::Additive);
    let id = open(&mut c, 1000, 400, 0, 100);
    assert_eq!(c.request_cancel(id, STRANGER), Err(Error::Unauthorized));
    assert_eq!(c.cancel_consensual(id, SENDER).unwrap_err(), Error::CancelRequestNotFound);
    c.request_cancel(id, SENDER).unwrap();
    assert_eq!(c.request_cancel(id, RECIPIENT), Err(Error::CancelRequestExists));
    assert_eq!(c.revoke_cancel_request(id, RECIPIENT), Err(Error::Unauthorized));
    assert_eq!(
        c.cancel_consensual(id, RECIPIENT).unwrap_err(),
        Error::InsufficientWithdrawable
    );
    c.revoke_cancel_request(id, SENDER).unwrap();
    assert_eq!(c.get_cancel_request(id), Ok(None));
    assert_eq!(c.revoke_cancel_request(id, SENDER), Err(Error::CancelRequestNotFound));
}

#[test]
fn deposit_boundary_rejections() {
    let mut c = contract_with(0, DelegatePolicy::Additive);
    let id = open(&mut c, 1000, 600, 0, 100);
    assert_eq!(c.deposit(SENDER, id, 401), Err(Error::DepositExceedsTotal));
    assert_eq!(c.deposit(SENDER, id, i128::MAX), Err(Error::DepositExceedsTotal));
    assert_eq!(c.deposit(SENDER, id, 0), Err(Error::InvalidAmount));
    assert_eq!(c.deposit(SENDER, id, -5), Err(Error::InvalidAmount));
    assert_eq!(c.deposit(RECIPIENT, id, 10), Err(Error::Unauthorized));
    let o = c.deposit(SENDER, id, 400).unwrap();
    assert_eq!(o.transfers, vec![pay(SENDER, CONTRACT, 400)]);
    assert_eq!(
        o.events,
        vec![Event::StreamDeposit(StreamDepositEvent { stream_id: id, amount: 400 })]
    );
    assert_eq!(c.get_stream(id).unwrap().balance, 1000);
}

#[test]
fn nonpositive_amounts_rejected() {
    let mut c = contract_with(0, DelegatePolicy::Additive);
    assert_eq!(
        c.create_stream(SENDER, SENDER, RECIPIENT, TOKEN, 0, 0, 0, 100).unwrap_err(),
        Error::InvalidAmount
    );
    assert_eq!(
        c.create_stream(SENDER, SENDER, RECIPIENT, TOKEN, 100, -1, 0, 100).unwrap_err(),
        Error::InvalidAmount
    );
    assert_eq!(
        c.create_stream(SENDER, SENDER, RECIPIENT, TOKEN, 100, 101, 0, 100).unwrap_err(),
        Error::InvalidAmount
    );
    let id = open(&mut c, 1000, 1000, 0, 100);
    c.set_timestamp(50);
    assert_eq!(c.withdraw(RECIPIENT, id, 0), Err(Error::InsufficientWithdrawable));
    assert_eq!(c.withdraw(RECIPIENT, id, -1), Err(Error::InsufficientWithdrawable));
    assert_eq!(c.withdraw(RECIPIENT, id, 501), Err(Error::InsufficientWithdrawable));
}

#[test]
fn withdrawal_limited_by_escrow() {
    let mut c = contract_with(0, DelegatePolicy::Additive);
    let id = open(&mut c, 1000, 200, 0, 100);
    c.set_timestamp(50);
    assert_eq!(c.withdrawable_amount(id), Ok(500));
    assert_eq!(c.withdraw(RECIPIENT, id, 300), Err(Error::InsufficientWithdrawable));
    assert!(c.withdraw(RECIPIENT, id, 200).is_ok());
}

#[test]
fn revoke_without_delegate_changes_nothing() {
    let mut c = contract_with(0, DelegatePolicy::Additive);
    let id = open(&mut c, 1000, 1000, 0, 100);
    c.set_timestamp(30);
    let metrics = c.get_stream_metrics(id).unwrap();
    let totals = c.get_protocol_metrics();
    let o = c.revoke_delegate(RECIPIENT, id).unwrap();
    assert!(o.events.is_empty());
    assert!(o.transfers.is_empty());
    assert_eq!(c.get_stream_metrics(id).unwrap(), metrics);
    assert_eq!(c.get_protocol_metrics(), totals);
    assert_eq!(metrics.last_activity, 0);
}

#[test]
fn withdrawable_never_decreases_over_time() {
    let mut c = contract_with(0, DelegatePolicy::Additive);
    let id = open(&mut c, 1000, 1000, 10, 110);
    let mut last: i128 = -1;
    for t in [0u64, 10, 11, 33, 60, 99, 110, 500] {
        c.set_timestamp(t);
        let w = c.withdrawable_amount(id).unwrap();
        assert!(w >= last);
        last = w;
    }
    assert_eq!(last, 1000);
}

#[test]
fn pause_resume_shifts_the_curve() {
    let mut c = contract_with(0, DelegatePolicy::Additive);
    let id = open(&mut c, 1000, 1000, 0, 100);
    c.set_timestamp(20);
    let o = c.pause_stream(SENDER, id).unwrap();
    assert_eq!(
        o.events,
        vec![Event::StreamPaused(StreamPausedEvent { stream_id: id, paused_at: 20 })]
    );
    c.set_timestamp(40);
    assert_eq!(c.withdrawable_amount(id), Ok(0));
    c.set_timestamp(50);
    let o = c.resume_stream(SENDER, id).unwrap();
    assert_eq!(
        o.events,
        vec![Event::StreamResumed(StreamResumedEvent {
            stream_id: id,
            resumed_at: 50,
            paused_duration: 30
        })]
    );
    let s = c.get_stream(id).unwrap();
    assert_eq!(s.end_time, 130);
    assert_eq!(s.total_paused_duration, 30);
    assert_eq!(s.paused_at, None);
    c.set_timestamp(80);
    // Without the pause, t = 50 gives 500.
    assert_eq!(c.withdrawable_amount(id), Ok(500));
    c.set_timestamp(130);
    assert_eq!(c.withdrawable_amount(id), Ok(1000));
}

#[test]
fn vesting_rounds_down() {
    let mut c = contract_with(0, DelegatePolicy::Additive);
    let id = open(&mut c, 1000, 1000, 0, 3);
    c.set_timestamp(1);
    assert_eq!(c.withdrawable_amount(id), Ok(333));
    c.set_timestamp(2);
    assert_eq!(c.withdrawable_amount(id), Ok(666));
}

#[test]
fn vesting_handles_large_amounts() {
    let mut c = contract_with(0, DelegatePolicy::Additive);
    let total = i128::MAX;
    let quarter: u64 = 1 << 62;
    let id = c
        .create_stream(SENDER, SENDER, RECIPIENT, TOKEN, total, 0, 0, 3 * quarter)
        .unwrap()
        .0;
    c.set_timestamp(quarter);
    assert_eq!(c.withdrawable_amount(id), Ok(i128::MAX / 3));
    c.set_timestamp(3 * quarter);
    assert_eq!(c.withdrawable_amount(id), Ok(total));
}

#[test]
fn protocol_fee_values() {
    assert_eq!(calculate_protocol_fee(1000, 250), 25);
    assert_eq!(calculate_protocol_fee(10001, 500), 500);
    assert_eq!(calculate_protocol_fee(19999, 1), 1);
    assert_eq!(calculate_protocol_fee(1, 500), 0);
    assert_eq!(calculate_protocol_fee(1000, 0), 0);
    assert_eq!(calculate_protocol_fee(-1000, 500), 0);
    assert_eq!(calculate_protocol_fee(i128::MAX, 500), i128::MAX / 20);
}

#[test]
fn cancel_refunds_unwithdrawn_escrow() {
    let mut c = contract_with(0, DelegatePolicy::Additive);
    let id = open(&mut c, 1000, 800, 0, 100);
    c.set_timestamp(30);
    c.withdraw(RECIPIENT, id, 300).unwrap();
    c.pause_stream(SENDER, id).unwrap();
    assert_eq!(c.cancel_stream(RECIPIENT, id).unwrap_err(), Error::Unauthorized);
    let o = c.cancel_stream(SENDER, id).unwrap();
    assert_eq!(o.transfers, vec![pay(CONTRACT, SENDER, 500)]);
    let s = c.get_stream(id).unwrap();
    assert_eq!(s.status, StreamStatus::Canceled);
    assert_eq!(s.paused_at, None);
    assert_eq!(c.cancel_stream(SENDER, id).unwrap_err(), Error::StreamCannotBeCanceled);
    assert_eq!(c.deposit(SENDER, id, 1), Err(Error::StreamNotActive));
    assert_eq!(c.get_protocol_metrics().total_active_streams, 0);
}

#[test]
fn lifecycle_errors() {
    let mut c = PaymentStreamContract::new(CONTRACT, DelegatePolicy::Additive, 0);
    assert_eq!(
        c.create_stream(SENDER, SENDER, RECIPIENT, TOKEN, 10, 0, 0, 10).unwrap_err(),
        Error::NotInitialized
    );
    assert_eq!(c.set_protocol_fee_rate(ADMIN, 10), Err(Error::NotInitialized));
    assert_eq!(c.get_fee_collector(), Err(Error::NotInitialized));
    assert_eq!(c.initialize(ADMIN, ADMIN, FEE_COLLECTOR, 501), Err(Error::FeeTooHigh));
    assert_eq!(c.initialize(STRANGER, ADMIN, FEE_COLLECTOR, 100), Err(Error::Unauthorized));
    c.initialize(ADMIN, ADMIN, FEE_COLLECTOR, 100).unwrap();
    assert_eq!(c.initialize(ADMIN, ADMIN, FEE_COLLECTOR, 100), Err(Error::AlreadyInitialized));
    assert_eq!(c.get_admin(), Some(ADMIN));
    assert_eq!(
        c.create_stream(STRANGER, SENDER, RECIPIENT, TOKEN, 10, 0, 0, 10).unwrap_err(),
        Error::Unauthorized
    );
    assert_eq!(
        c.create_stream(SENDER, SENDER, RECIPIENT, TOKEN, 10, 0, 10, 10).unwrap_err(),
        Error::InvalidTimeRange
    );
    let id = open(&mut c, 1000, 1000, 0, 100);
    assert_eq!(c.resume_stream(SENDER, id).unwrap_err(), Error::StreamNotPaused);
    c.pause_stream(SENDER, id).unwrap();
    assert_eq!(c.pause_stream(SENDER, id).unwrap_err(), Error::StreamNotActive);
    assert_eq!(c.pause_stream(STRANGER, 9).unwrap_err(), Error::StreamNotFound);
    assert_eq!(c.withdraw_max(RECIPIENT, id).unwrap_err(), Error::InsufficientWithdrawable);
}

#[test]
fn resume_overflow_is_reported() {
    let mut c = contract_with(0, DelegatePolicy::Additive);
    let id = open(&mut c, 1000, 1000, 0, u64::MAX - 5);
    c.pause_stream(SENDER, id).unwrap();
    c.set_timestamp(10);
    assert_eq!(c.resume_stream(SENDER, id).unwrap_err(), Error::ArithmeticOverflow);
    assert_eq!(c.get_stream(id).unwrap().status, StreamStatus::Paused);
}

#[test]
fn admin_settings() {
    let mut c = contract_with(100, DelegatePolicy::Additive);
    assert_eq!(c.get_protocol_fee_rate(), 100);
    assert_eq!(c.set_protocol_fee_rate(STRANGER, 200), Err(Error::Unauthorized));
    assert_eq!(c.set_protocol_fee_rate(ADMIN, 501), Err(Error::FeeTooHigh));
    c.set_protocol_fee_rate(ADMIN, 500).unwrap();
    assert_eq!(c.get_protocol_fee_rate(), 500);
    assert_eq!(c.set_fee_collector(STRANGER, STRANGER), Err(Error::Unauthorized));
    c.set_fee_collector(ADMIN, Address(9)).unwrap();
    assert_eq!(c.get_fee_collector(), Ok(Address(9)));
}

#[test]
fn exclusive_delegate_policy() {
    let mut c = contract_with(0, DelegatePolicy::Exclusive);
    let id = open(&mut c, 1000, 1000, 0, 100);
    c.set_timestamp(50);
    assert_eq!(c.set_delegate(SENDER, id, DELEGATE).unwrap_err(), Error::Unauthorized);
    c.set_delegate(RECIPIENT, id, DELEGATE).unwrap();
    assert_eq!(c.withdraw(RECIPIENT, id, 100), Err(Error::Unauthorized));
    assert!(c.withdraw(DELEGATE, id, 100).is_ok());
    c.revoke_delegate(RECIPIENT, id).unwrap();
    assert!(c.withdraw(RECIPIENT, id, 100).is_ok());
}

#[test]
fn metrics_follow_the_lifecycle() {
    let mut c = contract_with(0, DelegatePolicy::Additive);
    let a = open(&mut c, 1000, 1000, 0, 100);
    let b = open(&mut c, 500, 0, 0, 100);
    assert_eq!(b, 2);
    let m = c.get_protocol_metrics();
    assert_eq!(m.total_streams_created, 2);
    assert_eq!(m.total_active_streams, 2);
    assert_eq!(m.total_tokens_streamed, 1500);
    c.set_timestamp(10);
    c.set_delegate(RECIPIENT, a, DELEGATE).unwrap();
    c.pause_stream(SENDER, b).unwrap();
    assert_eq!(c.get_protocol_metrics().total_active_streams, 1);
    assert_eq!(c.get_protocol_metrics().total_delegations, 1);
    c.withdraw(DELEGATE, a, 100).unwrap();
    let sm = c.get_stream_metrics(a).unwrap();
    assert_eq!(sm.total_withdrawn, 100);
    assert_eq!(sm.withdrawal_count, 1);
    assert_eq!(sm.total_delegations, 1);
    assert_eq!(sm.current_delegate, Some(DELEGATE));
    assert_eq!(sm.last_delegation_time, 10);
    assert_eq!(c.get_stream_metrics(b).unwrap().pause_count, 1);
    assert_eq!(c.get_stream_metrics(3), Err(Error::StreamNotFound));
}

#[test]
fn restore_round_trip_and_rejects_broken_state() {
    let mut c = contract_with(100, DelegatePolicy::Additive);
    let id = open(&mut c, 1000, 1000, 0, 100);
    c.set_timestamp(60);
    c.withdraw(RECIPIENT, id, 200).unwrap();
    c.pause_stream(SENDER, id).unwrap();
    let records = c.stream_records();
    assert_eq!(records.len(), 1);
    assert_eq!(records[0].stream, c.get_stream(id).unwrap());

    let back = PaymentStreamContract::restore(
        c.escrow_address(),
        c.get_delegate_policy(),
        c.get_config(),
        records.clone(),
        c.get_protocol_metrics(),
        70,
    )
    .unwrap();
    assert_eq!(back.get_stream(id), c.get_stream(id));
    assert_eq!(back.timestamp(), 70);
    assert_eq!(back.get_protocol_fee_rate(), 100);

    let mut broken = records.clone();
    broken[0].stream.withdrawn_amount = 1001;
    assert!(PaymentStreamContract::restore(
        CONTRACT,
        DelegatePolicy::Additive,
        c.get_config(),
        broken,
        c.get_protocol_metrics(),
        70
    )
    .is_none());

    let mut wrong_id = records.clone();
    wrong_id[0].stream.id = 2;
    assert!(PaymentStreamContract::restore(
        CONTRACT,
        DelegatePolicy::Additive,
        c.get_config(),
        wrong_id,
        c.get_protocol_metrics(),
        70
    )
    .is_none());

    // The stream was paused at 60; a clock before that is not a valid state.
    assert!(PaymentStreamContract::restore(
        CONTRACT,
        DelegatePolicy::Additive,
        c.get_config(),
        records.clone(),
        c.get_protocol_metrics(),
        59
    )
    .is_none());

    assert!(PaymentStreamContract::restore(
        CONTRACT,
        DelegatePolicy::Additive,
        None,
        records,
        c.get_protocol_metrics(),
        70
    )
    .is_none());
}

#[test]
fn receipts_are_withdrawals_less_fees() {
    let mut c = contract_with(250, DelegatePolicy::Additive);
    let id = open(&mut c, 10_000, 10_000, 0, 100);
    let mut received: i128 = 0;
    let mut fees: i128 = 0;
    let steps: [(u64, i128); 3] = [(10, 999), (50, 3001), (70, 1)];
    for (t, amount) in steps {
        c.set_timestamp(t);
        let o = c.withdraw(RECIPIENT, id, amount).unwrap();
        for tr in o.transfers.iter() {
            if tr.to == RECIPIENT {
                received += tr.amount;
            } else {
                assert_eq!(tr.to, FEE_COLLECTOR);
                fees += tr.amount;
            }
        }
        let s = c.get_stream(id).unwrap();
        assert!(0 <= s.withdrawn_amount && s.withdrawn_amount <= s.total_amount);
        assert_eq!(received, s.withdrawn_amount - fees);
    }
    c.set_timestamp(100);
    let o = c.withdraw_max(RECIPIENT, id).unwrap();
    assert_eq!(o.transfers[0].amount + o.transfers[1].amount, 10_000 - 4001);
    let s = c.get_stream(id).unwrap();
    assert_eq!(s.withdrawn_amount, 10_000);
    assert_eq!(s.status, StreamStatus::Completed);
    assert_eq!(fees, 24 + 75);
}
