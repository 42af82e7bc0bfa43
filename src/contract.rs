use vstd::prelude::*;
use crate::auth::authorize;
use crate::types::{
    Address, CancelRequest, DelegatePolicy, DelegationGrantedEvent, DelegationRevokedEvent, Error,
    Event, FeeCollectedEvent, Outcome, ProtocolMetrics, Settlement, Stream, StreamDepositEvent,
    StreamMetrics, StreamPausedEvent, StreamResumedEvent, StreamStatus, Transfer,
};
use crate::vesting::{
    calculate_protocol_fee, lemma_vested_bounds, lemma_vested_monotonic, lemma_vested_shift,
    protocol_fee, schedule_valid, vested_amount, vested_at, withdrawable_at,
    withdrawable_at_time, MAX_FEE,
};

verus! {

/// Settings fixed by `initialize` and changed only by the admin.
#[derive(Clone, Copy, Debug, PartialEq, Eq)]
pub struct Config {
    pub admin: Address,
    pub fee_collector: Address,
    pub fee_rate: u32,
}

/// Everything kept for one stream.
#[derive(Clone, Copy, Debug, PartialEq, Eq)]
pub struct StreamRecord {
    pub stream: Stream,
    pub metrics: StreamMetrics,
    pub delegate: Option<Address>,
    pub cancel_request: Option<CancelRequest>,
}

/// The stream lifecycle controller: owns every stream of one escrow account.
pub struct PaymentStreamContract {
    address: Address,
    policy: DelegatePolicy,
    config: Option<Config>,
    records: Vec<StreamRecord>,
    totals: ProtocolMetrics,
    now: u64,
}

/// `a + 1`, held at the largest value.
pub open spec fn sat_inc(a: u64) -> u64 {
    if a == u64::MAX { a } else { (a + 1) as u64 }
}

/// `a - 1`, held at zero.
pub open spec fn sat_dec(a: u64) -> u64 {
    if a == 0 { 0 } else { (a - 1) as u64 }
}

/// `a + 1`, held at the largest value.
pub open spec fn sat_inc32(a: u32) -> u32 {
    if a == u32::MAX { a } else { (a + 1) as u32 }
}

/// A stream that may still move funds.
pub open spec fn is_live(s: Stream) -> bool {
    s.status == StreamStatus::Active || s.status == StreamStatus::Paused
}

/// The time up to which a stream has vested: the pause instant while paused, else `now`.
pub open spec fn effective_time(s: Stream, now: int) -> int {
    match s.paused_at {
        Some(p) => p as int,
        None => now,
    }
}

/// The conservation and lifecycle invariants of one stream.
pub open spec fn stream_wf(s: Stream, now: int) -> bool {
    &&& s.total_amount > 0
    &&& 0 <= s.withdrawn_amount <= s.balance <= s.total_amount
    &&& schedule_valid(s)
    &&& (s.status == StreamStatus::Paused) == s.paused_at.is_some()
    &&& (s.paused_at matches Some(p) ==> p <= now)
    &&& (is_live(s) ==> s.withdrawn_amount <= vested_at(s, effective_time(s, now)))
    &&& (is_live(s) ==> s.withdrawn_amount < s.total_amount)
    &&& (s.status == StreamStatus::Completed ==> s.withdrawn_amount == s.total_amount)
}

/// The invariants of the record kept at `index`: its id, its stream, and the metrics and
/// pending request that must agree with the stream.
pub open spec fn record_wf(r: StreamRecord, index: int, now: int) -> bool {
    &&& r.stream.id == index + 1
    &&& stream_wf(r.stream, now)
    &&& r.metrics.total_withdrawn == r.stream.withdrawn_amount
    &&& r.metrics.current_delegate == r.delegate
    &&& (r.cancel_request matches Some(c) ==> {
        &&& c.stream_id == r.stream.id
        &&& (c.requester == r.stream.sender || c.requester == r.stream.recipient)
    })
}

/// The invariants of a whole contract state.
pub open spec fn state_wf(
    config: Option<Config>,
    records: Seq<StreamRecord>,
    totals: ProtocolMetrics,
    now: u64,
) -> bool {
    &&& (config matches Some(c) ==> c.fee_rate <= MAX_FEE)
    &&& (records.len() > 0 ==> config is Some)
    &&& records.len() <= u64::MAX
    &&& totals.total_tokens_streamed >= 0
    &&& forall|i: int| 0 <= i < records.len() ==> #[trigger] record_wf(records[i], i, now as int)
}

/// Whether `s` meets the invariants of a stream at time `now`.
fn check_stream(s: &Stream, now: u64) -> (r: bool)
    ensures
        r == stream_wf(*s, now as int),
{
    if s.total_amount <= 0 || s.withdrawn_amount < 0 || s.withdrawn_amount > s.balance
        || s.balance > s.total_amount {
        return false;
    }
    if s.start_time >= s.end_time || s.total_paused_duration >= s.end_time - s.start_time {
        return false;
    }
    let at: u64 = match s.paused_at {
        Some(p) => {
            if s.status != StreamStatus::Paused || p > now {
                return false;
            }
            p
        },
        None => {
            if s.status == StreamStatus::Paused {
                return false;
            }
            now
        },
    };
    if s.status == StreamStatus::Active || s.status == StreamStatus::Paused {
        let vested: i128 = vested_amount(s, at);
        if s.withdrawn_amount > vested || s.withdrawn_amount >= s.total_amount {
            return false;
        }
    }
    if s.status == StreamStatus::Completed && s.withdrawn_amount != s.total_amount {
        return false;
    }
    true
}

/// Whether `r` meets the invariants of the record kept at `index` at time `now`.
fn check_record(r: &StreamRecord, index: usize, now: u64) -> (ok: bool)
    ensures
        ok == record_wf(*r, index as int, now as int),
{
    if r.stream.id as u128 != index as u128 + 1 {
        return false;
    }
    if !check_stream(&r.stream, now) {
        return false;
    }
    if r.metrics.total_withdrawn != r.stream.withdrawn_amount {
        return false;
    }
    let same_delegate: bool = match (r.metrics.current_delegate, r.delegate) {
        (Some(a), Some(b)) => a == b,
        (None, None) => true,
        _ => false,
    };
    if !same_delegate {
        return false;
    }
    match r.cancel_request {
        Some(c) => c.stream_id == r.stream.id && (c.requester == r.stream.sender
            || c.requester == r.stream.recipient),
        None => true,
    }
}

/// The principals whose signature lets a withdrawal from `r` through.
pub open spec fn withdraw_principals(r: StreamRecord, policy: DelegatePolicy) -> Seq<Address> {
    match r.delegate {
        None => seq![r.stream.recipient],
        Some(d) => if policy == DelegatePolicy::Additive {
            seq![r.stream.recipient, d]
        } else {
            seq![d]
        },
    }
}

/// The stream as `pause_stream` leaves it at time `now`.
pub open spec fn paused_stream(s: Stream, now: u64) -> Stream {
    Stream { status: StreamStatus::Paused, paused_at: Some(now), ..s }
}

/// How long the stream has been paused at time `now`.
pub open spec fn pause_length(s: Stream, now: u64) -> u64 {
    match s.paused_at {
        Some(p) => if p <= now { (now - p) as u64 } else { 0 },
        None => 0,
    }
}

/// The stream as `resume_stream` leaves it at time `now`: the pause is added to the
/// paused time and to the end of the window.
pub open spec fn resumed_stream(s: Stream, now: u64) -> Stream {
    Stream {
        status: StreamStatus::Active,
        paused_at: None,
        total_paused_duration: (s.total_paused_duration + pause_length(s, now)) as u64,
        end_time: (s.end_time + pause_length(s, now)) as u64,
        ..s
    }
}

/// What a consensual cancellation at time `now` treats as vested.
pub open spec fn consensual_vested(s: Stream, now: int) -> int {
    vested_at(s, effective_time(s, now))
}

/// The recipient's share on consensual cancellation: vested and not yet withdrawn.
pub open spec fn consensual_payout(s: Stream, now: int) -> int {
    consensual_vested(s, now) - s.withdrawn_amount
}

/// The sender's share on consensual cancellation: what has not vested.
pub open spec fn consensual_refund(s: Stream, now: int) -> int {
    s.total_amount - consensual_vested(s, now)
}

/// `a + b`, held at `i128::MAX` where it would pass it.
pub open spec fn tokens_added(a: i128, b: i128) -> i128 {
    if a + b > i128::MAX { i128::MAX } else { (a + b) as i128 }
}

fn add_tokens(a: i128, b: i128) -> (r: i128)
    requires
        a >= 0,
        b > 0,
    ensures
        r == tokens_added(a, b),
        r >= 0,
{
    if a > i128::MAX - b { i128::MAX } else { a + b }
}

impl PaymentStreamContract {
    /// The escrow account that holds the streamed tokens.
    pub closed spec fn escrow(&self) -> Address {
        self.address
    }

    pub closed spec fn delegate_policy(&self) -> DelegatePolicy {
        self.policy
    }

    pub closed spec fn config(&self) -> Option<Config> {
        self.config
    }

    /// The stream with id `k + 1` is at index `k`.
    pub closed spec fn records(&self) -> Seq<StreamRecord> {
        self.records@
    }

    pub closed spec fn totals(&self) -> ProtocolMetrics {
        self.totals
    }

    /// The current time of the ledger.
    pub closed spec fn clock(&self) -> u64 {
        self.now
    }

    pub open spec fn has_stream(&self, stream_id: u64) -> bool {
        1 <= stream_id <= self.records().len()
    }

    pub open spec fn record(&self, stream_id: u64) -> StreamRecord {
        self.records()[stream_id - 1]
    }

    pub open spec fn wf(&self) -> bool {
        state_wf(self.config(), self.records(), self.totals(), self.clock())
    }

    /// Everything but the streams and the protocol counters stays as it was.
    pub open spec fn same_settings(&self, other: &Self) -> bool {
        &&& self.escrow() == other.escrow()
        &&& self.delegate_policy() == other.delegate_policy()
        &&& self.config() == other.config()
        &&& self.clock() == other.clock()
    }

    /// A contract with no streams, not yet initialized, whose escrow account is `address`.
    pub fn new(address: Address, policy: DelegatePolicy, now: u64) -> (r: Self)
        ensures
            r.wf(),
            r.escrow() == address,
            r.delegate_policy() == policy,
            r.config() is None,
            r.records().len() == 0,
            r.clock() == now,
            r.totals() == (ProtocolMetrics {
                total_active_streams: 0,
                total_tokens_streamed: 0,
                total_streams_created: 0,
                total_delegations: 0,
            }),
    {
        PaymentStreamContract {
            address,
            policy,
            config: None,
            records: Vec::new(),
            totals: ProtocolMetrics {
                total_active_streams: 0,
                total_tokens_streamed: 0,
                total_streams_created: 0,
                total_delegations: 0,
            },
            now,
        }
    }

    /// Rebuilds a contract from stored state, provided the state meets every invariant.
    pub fn restore(
        address: Address,
        policy: DelegatePolicy,
        config: Option<Config>,
        records: Vec<StreamRecord>,
        totals: ProtocolMetrics,
        now: u64,
    ) -> (r: Option<Self>)
        ensures
            r is Some <==> state_wf(config, records@, totals, now),
            r matches Some(c) ==> {
                &&& c.wf()
                &&& c.escrow() == address
                &&& c.delegate_policy() == policy
                &&& c.config() == config
                &&& c.records() == records@
                &&& c.totals() == totals
                &&& c.clock() == now
            },
    {
        match config {
            Some(c) => {
                if c.fee_rate > MAX_FEE {
                    return None;
                }
            },
            None => {
                if records.len() > 0 {
                    return None;
                }
            },
        }
        if records.len() as u128 > u64::MAX as u128 || totals.total_tokens_streamed < 0 {
            return None;
        }
        let mut i: usize = 0;
        while i < records.len()
            invariant
                0 <= i <= records@.len(),
                forall|j: int| 0 <= j < i ==> #[trigger] record_wf(records@[j], j, now as int),
            decreases records@.len() - i,
        {
            if !check_record(&records[i], i, now) {
                return None;
            }
            i = i + 1;
        }
        Some(PaymentStreamContract { address, policy, config, records, totals, now })
    }

    /// The stored state of every stream, in id order.
    pub fn stream_records(&self) -> (r: Vec<StreamRecord>)
        ensures
            r@ == self.records(),
    {
        let mut out: Vec<StreamRecord> = Vec::new();
        let mut i: usize = 0;
        while i < self.records.len()
            invariant
                0 <= i <= self.records@.len(),
                out@ == self.records@.subrange(0, i as int),
            decreases self.records@.len() - i,
        {
            out.push(self.records[i]);
            i = i + 1;
            assert(out@ =~= self.records@.subrange(0, i as int));
        }
        assert(out@ =~= self.records@);
        out
    }

    /// The settings made by `initialize` and the admin, if initialized.
    pub fn get_config(&self) -> (r: Option<Config>)
        ensures
            r == self.config(),
    {
        self.config
    }

    /// The account that holds the escrowed tokens.
    pub fn escrow_address(&self) -> (r: Address)
        ensures
            r == self.escrow(),
    {
        self.address
    }

    /// Whether a delegate withdraws beside the recipient or instead of it.
    pub fn get_delegate_policy(&self) -> (r: DelegatePolicy)
        ensures
            r == self.delegate_policy(),
    {
        self.policy
    }

    pub open spec fn initialize_error(
        &self,
        caller: Address,
        admin: Address,
        fee_rate: u32,
    ) -> Option<Error> {
        if self.config() is Some {
            Some(Error::AlreadyInitialized)
        } else if fee_rate > MAX_FEE {
            Some(Error::FeeTooHigh)
        } else if caller != admin {
            Some(Error::Unauthorized)
        } else {
            None
        }
    }

    /// Sets the admin, the fee collector and the fee rate, once.
    pub fn initialize(
        &mut self,
        caller: Address,
        admin: Address,
        fee_collector: Address,
        fee_rate: u32,
    ) -> (r: Result<(), Error>)
        requires
            old(self).wf(),
        ensures
            final(self).wf(),
            r is Err <==> old(self).initialize_error(caller, admin, fee_rate) is Some,
            r matches Err(e) ==> Some(e) == old(self).initialize_error(caller, admin, fee_rate)
                && *final(self) == *old(self),
            r is Ok ==> {
                &&& final(self).config() == Some(
                    Config { admin, fee_collector, fee_rate },
                )
                &&& final(self).escrow() == old(self).escrow()
                &&& final(self).delegate_policy() == old(self).delegate_policy()
                &&& final(self).clock() == old(self).clock()
                &&& final(self).records() == old(self).records()
                &&& final(self).totals() == old(self).totals()
            },
    {
        if self.config.is_some() {
            return Err(Error::AlreadyInitialized);
        }
        if fee_rate > MAX_FEE {
            return Err(Error::FeeTooHigh);
        }
        if caller != admin {
            return Err(Error::Unauthorized);
        }
        self.config = Some(Config { admin, fee_collector, fee_rate });
        Ok(())
    }

    /// Advances the ledger clock to `t`.
    pub fn set_timestamp(&mut self, t: u64)
        requires
            old(self).wf(),
            old(self).clock() <= t,
        ensures
            final(self).wf(),
            final(self).clock() == t,
            final(self).escrow() == old(self).escrow(),
            final(self).delegate_policy() == old(self).delegate_policy(),
            final(self).config() == old(self).config(),
            final(self).records() == old(self).records(),
            final(self).totals() == old(self).totals(),
    {
        let ghost before = *self;
        self.now = t;
        assert forall|i: int| 0 <= i < self.records().len() implies #[trigger] record_wf(
            self.records()[i],
            i,
            t as int,
        ) by {
            let s = self.records()[i].stream;
            assert(record_wf(before.records()[i], i, before.now as int));
            if s.paused_at is None {
                lemma_vested_monotonic(s, before.now as int, t as int);
            }
        }
    }

    /// The current time of the ledger.
    pub fn timestamp(&self) -> (r: u64)
        ensures
            r == self.clock(),
    {
        self.now
    }

    fn lookup(&self, stream_id: u64) -> (r: Result<usize, Error>)
        requires
            self.wf(),
        ensures
            r matches Ok(i) ==> self.has_stream(stream_id) && i == stream_id - 1,
            r is Err <==> !self.has_stream(stream_id),
            r matches Err(e) ==> e == Error::StreamNotFound,
    {
        let len: u64 = self.records.len() as u64;
        if stream_id == 0 || stream_id > len {
            Err(Error::StreamNotFound)
        } else {
            Ok((stream_id - 1) as usize)
        }
    }

    pub open spec fn create_error(
        &self,
        caller: Address,
        sender: Address,
        total_amount: i128,
        initial_amount: i128,
        start_time: u64,
        end_time: u64,
    ) -> Option<Error> {
        if caller != sender {
            Some(Error::Unauthorized)
        } else if self.config() is None {
            Some(Error::NotInitialized)
        } else if total_amount <= 0 {
            Some(Error::InvalidAmount)
        } else if initial_amount < 0 || initial_amount > total_amount {
            Some(Error::InvalidAmount)
        } else if end_time <= start_time {
            Some(Error::InvalidTimeRange)
        } else if self.records().len() >= u64::MAX {
            Some(Error::ArithmeticOverflow)
        } else {
            None
        }
    }

    /// The record of a stream as `create_stream` makes it.
    pub open spec fn created_record(
        &self,
        sender: Address,
        recipient: Address,
        token: Address,
        total_amount: i128,
        initial_amount: i128,
        start_time: u64,
        end_time: u64,
    ) -> StreamRecord {
        StreamRecord {
            stream: Stream {
                id: (self.records().len() + 1) as u64,
                sender,
                recipient,
                token,
                total_amount,
                balance: initial_amount,
                withdrawn_amount: 0,
                start_time,
                end_time,
                status: StreamStatus::Active,
                paused_at: None,
                total_paused_duration: 0,
            },
            metrics: StreamMetrics {
                last_activity: self.clock(),
                total_withdrawn: 0,
                withdrawal_count: 0,
                pause_count: 0,
                total_delegations: 0,
                current_delegate: None,
                last_delegation_time: 0,
            },
            delegate: None,
            cancel_request: None,
        }
    }

    /// Opens a stream of `total_amount` from `sender` to `recipient` over
    /// `[start_time, end_time]`, escrowing `initial_amount` of it now.
    pub fn create_stream(
        &mut self,
        caller: Address,
        sender: Address,
        recipient: Address,
        token: Address,
        total_amount: i128,
        initial_amount: i128,
        start_time: u64,
        end_time: u64,
    ) -> (r: Result<(u64, Outcome), Error>)
        requires
            old(self).wf(),
        ensures
            final(self).wf(),
            r is Err <==> old(self).create_error(
                caller,
                sender,
                total_amount,
                initial_amount,
                start_time,
                end_time,
            ) is Some,
            r matches Err(e) ==> *final(self) == *old(self) && Some(e) == old(self).create_error(
                caller,
                sender,
                total_amount,
                initial_amount,
                start_time,
                end_time,
            ),
            r matches Ok((id, o)) ==> {
                &&& id == old(self).records().len() + 1
                &&& final(self).same_settings(old(self))
                &&& final(self).records() == old(self).records().push(
                    old(self).created_record(
                        sender,
                        recipient,
                        token,
                        total_amount,
                        initial_amount,
                        start_time,
                        end_time,
                    ),
                )
                &&& final(self).totals() == (ProtocolMetrics {
                    total_active_streams: sat_inc(old(self).totals().total_active_streams),
                    total_tokens_streamed: tokens_added(
                        old(self).totals().total_tokens_streamed,
                        total_amount,
                    ),
                    total_streams_created: sat_inc(old(self).totals().total_streams_created),
                    total_delegations: old(self).totals().total_delegations,
                })
                &&& o.transfers@ == (if initial_amount > 0 {
                    seq![Transfer { token, from: sender, to: old(self).escrow(), amount: initial_amount }]
                } else {
                    Seq::<Transfer>::empty()
                })
                &&& o.events@ == Seq::<Event>::empty()
            },
    {
        if caller != sender {
            return Err(Error::Unauthorized);
        }
        if self.config.is_none() {
            return Err(Error::NotInitialized);
        }
        if total_amount <= 0 {
            return Err(Error::InvalidAmount);
        }
        if initial_amount < 0 || initial_amount > total_amount {
            return Err(Error::InvalidAmount);
        }
        if end_time <= start_time {
            return Err(Error::InvalidTimeRange);
        }
        let count: u64 = self.records.len() as u64;
        if count == u64::MAX {
            return Err(Error::ArithmeticOverflow);
        }
        let stream_id: u64 = count + 1;
        let rec = StreamRecord {
            stream: Stream {
                id: stream_id,
                sender,
                recipient,
                token,
                total_amount,
                balance: initial_amount,
                withdrawn_amount: 0,
                start_time,
                end_time,
                status: StreamStatus::Active,
                paused_at: None,
                total_paused_duration: 0,
            },
            metrics: StreamMetrics {
                last_activity: self.now,
                total_withdrawn: 0,
                withdrawal_count: 0,
                pause_count: 0,
                total_delegations: 0,
                current_delegate: None,
                last_delegation_time: 0,
            },
            delegate: None,
            cancel_request: None,
        };
        proof {
            lemma_vested_bounds(rec.stream, self.now as int);
        }
        let ghost before = *self;
        self.records.push(rec);
        self.totals.total_active_streams = self.totals.total_active_streams.saturating_add(1);
        self.totals.total_tokens_streamed = add_tokens(
            self.totals.total_tokens_streamed,
            total_amount,
        );
        self.totals.total_streams_created = self.totals.total_streams_created.saturating_add(1);
        assert forall|i: int| 0 <= i < self.records().len() implies #[trigger] record_wf(
            self.records()[i],
            i,
            self.clock() as int,
        ) by {
            if i < before.records().len() {
                assert(record_wf(before.records()[i], i, before.clock() as int));
            }
        }
        let mut transfers: Vec<Transfer> = Vec::new();
        if initial_amount > 0 {
            transfers.push(Transfer { token, from: sender, to: self.address, amount: initial_amount });
            assert(transfers@ =~= seq![Transfer { token, from: sender, to: self.address, amount: initial_amount }]);
        }
        Ok((stream_id, Outcome { transfers, events: Vec::new() }))
    }

    pub open spec fn deposit_error(&self, caller: Address, stream_id: u64, amount: i128) -> Option<Error> {
        if !self.has_stream(stream_id) {
            Some(Error::StreamNotFound)
        } else {
            let s = self.record(stream_id).stream;
            if s.status == StreamStatus::Canceled || s.status == StreamStatus::Completed {
                Some(Error::StreamNotActive)
            } else if caller != s.sender {
                Some(Error::Unauthorized)
            } else if amount <= 0 {
                Some(Error::InvalidAmount)
            } else if s.balance + amount > s.total_amount {
                Some(Error::DepositExceedsTotal)
            } else {
                None
            }
        }
    }

    pub open spec fn deposited_record(&self, stream_id: u64, amount: i128) -> StreamRecord {
        let r = self.record(stream_id);
        StreamRecord {
            stream: Stream { balance: (r.stream.balance + amount) as i128, ..r.stream },
            metrics: StreamMetrics { last_activity: self.clock(), ..r.metrics },
            ..r
        }
    }

    /// Tops up the escrow of a stream that has not ended by `amount`, up to its total.
    pub fn deposit(&mut self, caller: Address, stream_id: u64, amount: i128) -> (r: Result<Outcome, Error>)
        requires
            old(self).wf(),
        ensures
            final(self).wf(),
            r is Err <==> old(self).deposit_error(caller, stream_id, amount) is Some,
            r matches Err(e) ==> *final(self) == *old(self)
                && Some(e) == old(self).deposit_error(caller, stream_id, amount),
            r matches Ok(o) ==> {
                let s = old(self).record(stream_id).stream;
                &&& final(self).same_settings(old(self))
                &&& final(self).totals() == old(self).totals()
                &&& final(self).records() == old(self).records().update(
                    stream_id - 1,
                    old(self).deposited_record(stream_id, amount),
                )
                &&& o.transfers@ == seq![Transfer { token: s.token, from: s.sender, to: old(self).escrow(), amount }]
                &&& o.events@ == seq![Event::StreamDeposit(StreamDepositEvent { stream_id, amount })]
            },
    {
        let i = match self.lookup(stream_id) {
            Ok(i) => i,
            Err(e) => return Err(e),
        };
        let mut rec = self.records[i];
        if rec.stream.status == StreamStatus::Canceled || rec.stream.status == StreamStatus::Completed {
            return Err(Error::StreamNotActive);
        }
        if caller != rec.stream.sender {
            return Err(Error::Unauthorized);
        }
        if amount <= 0 {
            return Err(Error::InvalidAmount);
        }
        assert(record_wf(self.records()[i as int], i as int, self.clock() as int));
        if amount > rec.stream.total_amount - rec.stream.balance {
            return Err(Error::DepositExceedsTotal);
        }
        let new_balance: i128 = rec.stream.balance + amount;
        let ghost before = *self;
        rec.stream.balance = new_balance;
        rec.metrics.last_activity = self.now;
        self.records[i] = rec;
        assert forall|j: int| 0 <= j < self.records().len() implies #[trigger] record_wf(
            self.records()[j],
            j,
            self.clock() as int,
        ) by {
            assert(record_wf(before.records()[j], j, before.clock() as int));
        }
        let transfers: Vec<Transfer> = vec![
            Transfer { token: rec.stream.token, from: rec.stream.sender, to: self.address, amount },
        ];
        let events: Vec<Event> = vec![Event::StreamDeposit(StreamDepositEvent { stream_id, amount })];
        Ok(Outcome { transfers, events })
    }

    /// The fee rate in force; zero before initialization.
    pub open spec fn fee_rate(&self) -> u32 {
        match self.config() {
            Some(c) => c.fee_rate,
            None => 0,
        }
    }

    pub open spec fn withdraw_error(&self, caller: Address, stream_id: u64, amount: i128) -> Option<Error> {
        if !self.has_stream(stream_id) {
            Some(Error::StreamNotFound)
        } else {
            let r = self.record(stream_id);
            if !withdraw_principals(r, self.delegate_policy()).contains(caller) {
                Some(Error::Unauthorized)
            } else if amount > withdrawable_at(r.stream, self.clock() as int) || amount <= 0 {
                Some(Error::InsufficientWithdrawable)
            } else if r.stream.withdrawn_amount + amount > r.stream.balance {
                Some(Error::InsufficientWithdrawable)
            } else {
                None
            }
        }
    }

    pub open spec fn withdrawn_record(&self, stream_id: u64, amount: i128) -> StreamRecord {
        let r = self.record(stream_id);
        let w = (r.stream.withdrawn_amount + amount) as i128;
        StreamRecord {
            stream: Stream {
                withdrawn_amount: w,
                status: if w >= r.stream.total_amount { StreamStatus::Completed } else { r.stream.status },
                ..r.stream
            },
            metrics: StreamMetrics {
                total_withdrawn: w,
                withdrawal_count: sat_inc32(r.metrics.withdrawal_count),
                last_activity: self.clock(),
                ..r.metrics
            },
            ..r
        }
    }

    /// The payments a withdrawal of `amount` makes: the net to the recipient, then any fee.
    pub open spec fn withdraw_transfers(&self, stream_id: u64, amount: i128) -> Seq<Transfer> {
        let s = self.record(stream_id).stream;
        let fee = protocol_fee(amount as int, self.fee_rate() as int);
        let net = Transfer { token: s.token, from: self.escrow(), to: s.recipient, amount: (amount - fee) as i128 };
        if fee > 0 {
            seq![net, Transfer { token: s.token, from: self.escrow(), to: self.config().unwrap().fee_collector, amount: fee as i128 }]
        } else {
            seq![net]
        }
    }

    pub open spec fn withdraw_events(&self, stream_id: u64, amount: i128) -> Seq<Event> {
        let fee = protocol_fee(amount as int, self.fee_rate() as int);
        if fee > 0 {
            seq![Event::FeeCollected(FeeCollectedEvent { stream_id, amount: fee as i128 })]
        } else {
            Seq::<Event>::empty()
        }
    }

    pub open spec fn withdraw_done(&self, post: &Self, stream_id: u64, amount: i128, o: Outcome) -> bool {
        let completes = self.record(stream_id).stream.withdrawn_amount + amount >= self.record(stream_id).stream.total_amount;
        &&& post.same_settings(self)
        &&& post.records() == self.records().update(stream_id - 1, self.withdrawn_record(stream_id, amount))
        &&& post.totals() == (ProtocolMetrics {
            total_active_streams: if completes {
                sat_dec(self.totals().total_active_streams)
            } else {
                self.totals().total_active_streams
            },
            ..self.totals()
        })
        &&& o.transfers@ == self.withdraw_transfers(stream_id, amount)
        &&& o.events@ == self.withdraw_events(stream_id, amount)
    }

    /// Pays `amount` of what has vested out of the escrow: the fee to the fee collector,
    /// the rest to the recipient. The recipient or a registered delegate must sign, and
    /// the escrow must still hold `amount` for this stream.
    pub fn withdraw(&mut self, caller: Address, stream_id: u64, amount: i128) -> (r: Result<Outcome, Error>)
        requires
            old(self).wf(),
        ensures
            final(self).wf(),
            r is Err <==> old(self).withdraw_error(caller, stream_id, amount) is Some,
            r matches Err(e) ==> *final(self) == *old(self)
                && Some(e) == old(self).withdraw_error(caller, stream_id, amount),
            r matches Ok(o) ==> old(self).withdraw_done(final(self), stream_id, amount, o),
    {
        let i = match self.lookup(stream_id) {
            Ok(i) => i,
            Err(e) => return Err(e),
        };
        let mut rec = self.records[i];
        assert(record_wf(self.records()[i as int], i as int, self.clock() as int));
        let mut allowed: Vec<Address> = vec![rec.stream.recipient];
        match rec.delegate {
            Some(d) => {
                if self.policy == DelegatePolicy::Exclusive {
                    allowed = vec![d];
                } else {
                    allowed.push(d);
                }
            },
            None => {},
        }
        assert(allowed@ =~= withdraw_principals(rec, self.policy));
        match authorize(caller, &allowed) {
            Ok(()) => {},
            Err(e) => return Err(e),
        }
        let available: i128 = withdrawable_at_time(&rec.stream, self.now);
        if amount > available || amount <= 0 {
            return Err(Error::InsufficientWithdrawable);
        }
        if amount > rec.stream.balance - rec.stream.withdrawn_amount {
            return Err(Error::InsufficientWithdrawable);
        }
        let config = match self.config {
            Some(c) => c,
            None => return Err(Error::NotInitialized),
        };
        let fee: i128 = calculate_protocol_fee(amount, config.fee_rate);
        let net: i128 = amount - fee;
        let ghost before = *self;
        proof {
            lemma_vested_bounds(rec.stream, self.now as int);
        }
        rec.stream.withdrawn_amount = rec.stream.withdrawn_amount + amount;
        rec.metrics.total_withdrawn = rec.stream.withdrawn_amount;
        rec.metrics.withdrawal_count = rec.metrics.withdrawal_count.saturating_add(1);
        rec.metrics.last_activity = self.now;
        if rec.stream.withdrawn_amount >= rec.stream.total_amount {
            rec.stream.status = StreamStatus::Completed;
            self.totals.total_active_streams = self.totals.total_active_streams.saturating_sub(1);
        }
        self.records[i] = rec;
        assert forall|j: int| 0 <= j < self.records().len() implies #[trigger] record_wf(
            self.records()[j],
            j,
            self.clock() as int,
        ) by {
            assert(record_wf(before.records()[j], j, before.clock() as int));
        }
        let mut transfers: Vec<Transfer> = vec![
            Transfer { token: rec.stream.token, from: self.address, to: rec.stream.recipient, amount: net },
        ];
        let mut events: Vec<Event> = Vec::new();
        if fee > 0 {
            transfers.push(Transfer { token: rec.stream.token, from: self.address, to: config.fee_collector, amount: fee });
            events.push(Event::FeeCollected(FeeCollectedEvent { stream_id, amount: fee }));
        }
        assert(transfers@ =~= before.withdraw_transfers(stream_id, amount));
        assert(events@ =~= before.withdraw_events(stream_id, amount));
        Ok(Outcome { transfers, events })
    }

    pub open spec fn withdraw_max_error(&self, caller: Address, stream_id: u64) -> Option<Error> {
        if !self.has_stream(stream_id) {
            Some(Error::StreamNotFound)
        } else if withdrawable_at(self.record(stream_id).stream, self.clock() as int) <= 0 {
            Some(Error::InsufficientWithdrawable)
        } else {
            self.withdraw_error(
                caller,
                stream_id,
                withdrawable_at(self.record(stream_id).stream, self.clock() as int) as i128,
            )
        }
    }

    /// Withdraws everything that is withdrawable now.
    pub fn withdraw_max(&mut self, caller: Address, stream_id: u64) -> (r: Result<Outcome, Error>)
        requires
            old(self).wf(),
        ensures
            final(self).wf(),
            r is Err <==> old(self).withdraw_max_error(caller, stream_id) is Some,
            r matches Err(e) ==> *final(self) == *old(self)
                && Some(e) == old(self).withdraw_max_error(caller, stream_id),
            r matches Ok(o) ==> old(self).withdraw_done(
                final(self),
                stream_id,
                withdrawable_at(old(self).record(stream_id).stream, old(self).clock() as int) as i128,
                o,
            ),
    {
        let available: i128 = match self.withdrawable_amount(stream_id) {
            Ok(v) => v,
            Err(e) => return Err(e),
        };
        if available <= 0 {
            return Err(Error::InsufficientWithdrawable);
        }
        self.withdraw(caller, stream_id, available)
    }

    pub open spec fn pause_error(&self, caller: Address, stream_id: u64) -> Option<Error> {
        if !self.has_stream(stream_id) {
            Some(Error::StreamNotFound)
        } else if caller != self.record(stream_id).stream.sender {
            Some(Error::Unauthorized)
        } else if self.record(stream_id).stream.status != StreamStatus::Active {
            Some(Error::StreamNotActive)
        } else {
            None
        }
    }

    /// Stops vesting of an active stream until it is resumed. Sender only.
    pub fn pause_stream(&mut self, caller: Address, stream_id: u64) -> (r: Result<Outcome, Error>)
        requires
            old(self).wf(),
        ensures
            final(self).wf(),
            r is Err <==> old(self).pause_error(caller, stream_id) is Some,
            r matches Err(e) ==> *final(self) == *old(self)
                && Some(e) == old(self).pause_error(caller, stream_id),
            r matches Ok(o) ==> {
                let rec = old(self).record(stream_id);
                &&& final(self).same_settings(old(self))
                &&& final(self).records() == old(self).records().update(
                    stream_id - 1,
                    StreamRecord {
                        stream: paused_stream(rec.stream, old(self).clock()),
                        metrics: StreamMetrics {
                            pause_count: sat_inc32(rec.metrics.pause_count),
                            last_activity: old(self).clock(),
                            ..rec.metrics
                        },
                        ..rec
                    },
                )
                &&& final(self).totals() == (ProtocolMetrics {
                    total_active_streams: sat_dec(old(self).totals().total_active_streams),
                    ..old(self).totals()
                })
                &&& o.transfers@ == Seq::<Transfer>::empty()
                &&& o.events@ == seq![
                    Event::StreamPaused(StreamPausedEvent { stream_id, paused_at: old(self).clock() }),
                ]
            },
    {
        let i = match self.lookup(stream_id) {
            Ok(i) => i,
            Err(e) => return Err(e),
        };
        let mut rec = self.records[i];
        if caller != rec.stream.sender {
            return Err(Error::Unauthorized);
        }
        if rec.stream.status != StreamStatus::Active {
            return Err(Error::StreamNotActive);
        }
        let ghost before = *self;
        rec.stream.status = StreamStatus::Paused;
        rec.stream.paused_at = Some(self.now);
        rec.metrics.pause_count = rec.metrics.pause_count.saturating_add(1);
        rec.metrics.last_activity = self.now;
        self.records[i] = rec;
        self.totals.total_active_streams = self.totals.total_active_streams.saturating_sub(1);
        assert forall|j: int| 0 <= j < self.records().len() implies #[trigger] record_wf(
            self.records()[j],
            j,
            self.clock() as int,
        ) by {
            assert(record_wf(before.records()[j], j, before.clock() as int));
        }
        let events: Vec<Event> = vec![
            Event::StreamPaused(StreamPausedEvent { stream_id, paused_at: self.now }),
        ];
        Ok(Outcome { transfers: Vec::new(), events })
    }

    pub open spec fn resume_error(&self, caller: Address, stream_id: u64) -> Option<Error> {
        if !self.has_stream(stream_id) {
            Some(Error::StreamNotFound)
        } else {
            let s = self.record(stream_id).stream;
            if caller != s.sender {
                Some(Error::Unauthorized)
            } else if s.status != StreamStatus::Paused {
                Some(Error::StreamNotPaused)
            } else if s.end_time + pause_length(s, self.clock()) > u64::MAX {
                Some(Error::ArithmeticOverflow)
            } else {
                None
            }
        }
    }

    /// Restarts a paused stream; the pause is added to the end of its window. Sender only.
    pub fn resume_stream(&mut self, caller: Address, stream_id: u64) -> (r: Result<Outcome, Error>)
        requires
            old(self).wf(),
        ensures
            final(self).wf(),
            r is Err <==> old(self).resume_error(caller, stream_id) is Some,
            r matches Err(e) ==> *final(self) == *old(self)
                && Some(e) == old(self).resume_error(caller, stream_id),
            r matches Ok(o) ==> {
                let rec = old(self).record(stream_id);
                &&& final(self).same_settings(old(self))
                &&& final(self).records() == old(self).records().update(
                    stream_id - 1,
                    StreamRecord {
                        stream: resumed_stream(rec.stream, old(self).clock()),
                        metrics: StreamMetrics { last_activity: old(self).clock(), ..rec.metrics },
                        ..rec
                    },
                )
                &&& final(self).totals() == (ProtocolMetrics {
                    total_active_streams: sat_inc(old(self).totals().total_active_streams),
                    ..old(self).totals()
                })
                &&& o.transfers@ == Seq::<Transfer>::empty()
                &&& o.events@ == seq![
                    Event::StreamResumed(
                        StreamResumedEvent {
                            stream_id,
                            resumed_at: old(self).clock(),
                            paused_duration: pause_length(rec.stream, old(self).clock()),
                        },
                    ),
                ]
            },
    {
        let i = match self.lookup(stream_id) {
            Ok(i) => i,
            Err(e) => return Err(e),
        };
        let mut rec = self.records[i];
        assert(record_wf(self.records()[i as int], i as int, self.clock() as int));
        if caller != rec.stream.sender {
            return Err(Error::Unauthorized);
        }
        if rec.stream.status != StreamStatus::Paused {
            return Err(Error::StreamNotPaused);
        }
        let paused_duration: u64 = match rec.stream.paused_at {
            Some(p) => self.now.saturating_sub(p),
            None => 0,
        };
        let new_end: u64 = match rec.stream.end_time.checked_add(paused_duration) {
            Some(e) => e,
            None => return Err(Error::ArithmeticOverflow),
        };
        let ghost before = *self;
        let ghost old_stream = rec.stream;
        rec.stream.total_paused_duration = rec.stream.total_paused_duration + paused_duration;
        rec.stream.end_time = new_end;
        rec.stream.status = StreamStatus::Active;
        rec.stream.paused_at = None;
        rec.metrics.last_activity = self.now;
        proof {
            lemma_vested_shift(old_stream, rec.stream, paused_duration as int, self.now as int);
        }
        self.records[i] = rec;
        self.totals.total_active_streams = self.totals.total_active_streams.saturating_add(1);
        assert forall|j: int| 0 <= j < self.records().len() implies #[trigger] record_wf(
            self.records()[j],
            j,
            self.clock() as int,
        ) by {
            assert(record_wf(before.records()[j], j, before.clock() as int));
        }
        let events: Vec<Event> = vec![
            Event::StreamResumed(
                StreamResumedEvent { stream_id, resumed_at: self.now, paused_duration },
            ),
        ];
        Ok(Outcome { transfers: Vec::new(), events })
    }

    pub open spec fn cancel_error(&self, caller: Address, stream_id: u64) -> Option<Error> {
        if !self.has_stream(stream_id) {
            Some(Error::StreamNotFound)
        } else if caller != self.record(stream_id).stream.sender {
            Some(Error::Unauthorized)
        } else if !is_live(self.record(stream_id).stream) {
            Some(Error::StreamCannotBeCanceled)
        } else {
            None
        }
    }

    /// Ends a live stream at once and refunds the unwithdrawn escrow to the sender. Sender only.
    pub fn cancel_stream(&mut self, caller: Address, stream_id: u64) -> (r: Result<Outcome, Error>)
        requires
            old(self).wf(),
        ensures
            final(self).wf(),
            r is Err <==> old(self).cancel_error(caller, stream_id) is Some,
            r matches Err(e) ==> *final(self) == *old(self)
                && Some(e) == old(self).cancel_error(caller, stream_id),
            r matches Ok(o) ==> {
                let rec = old(self).record(stream_id);
                let s = rec.stream;
                let refund = s.balance - s.withdrawn_amount;
                &&& final(self).same_settings(old(self))
                &&& final(self).records() == old(self).records().update(
                    stream_id - 1,
                    StreamRecord {
                        stream: Stream { status: StreamStatus::Canceled, paused_at: None, ..s },
                        metrics: StreamMetrics { last_activity: old(self).clock(), ..rec.metrics },
                        cancel_request: None,
                        ..rec
                    },
                )
                &&& final(self).totals() == (ProtocolMetrics {
                    total_active_streams: if s.status == StreamStatus::Active {
                        sat_dec(old(self).totals().total_active_streams)
                    } else {
                        old(self).totals().total_active_streams
                    },
                    ..old(self).totals()
                })
                &&& o.transfers@ == (if refund > 0 {
                    seq![Transfer { token: s.token, from: old(self).escrow(), to: s.sender, amount: refund as i128 }]
                } else {
                    Seq::<Transfer>::empty()
                })
                &&& o.events@ == Seq::<Event>::empty()
            },
    {
        let i = match self.lookup(stream_id) {
            Ok(i) => i,
            Err(e) => return Err(e),
        };
        let mut rec = self.records[i];
        assert(record_wf(self.records()[i as int], i as int, self.clock() as int));
        if caller != rec.stream.sender {
            return Err(Error::Unauthorized);
        }
        if rec.stream.status != StreamStatus::Active && rec.stream.status != StreamStatus::Paused {
            return Err(Error::StreamCannotBeCanceled);
        }
        let was_active: bool = rec.stream.status == StreamStatus::Active;
        let ghost before = *self;
        rec.stream.status = StreamStatus::Canceled;
        rec.stream.paused_at = None;
        rec.metrics.last_activity = self.now;
        rec.cancel_request = None;
        self.records[i] = rec;
        if was_active {
            self.totals.total_active_streams = self.totals.total_active_streams.saturating_sub(1);
        }
        assert forall|j: int| 0 <= j < self.records().len() implies #[trigger] record_wf(
            self.records()[j],
            j,
            self.clock() as int,
        ) by {
            assert(record_wf(before.records()[j], j, before.clock() as int));
        }
        let remaining: i128 = rec.stream.balance - rec.stream.withdrawn_amount;
        let mut transfers: Vec<Transfer> = Vec::new();
        if remaining > 0 {
            transfers.push(Transfer { token: rec.stream.token, from: self.address, to: rec.stream.sender, amount: remaining });
            assert(transfers@ =~= seq![Transfer { token: rec.stream.token, from: self.address, to: rec.stream.sender, amount: remaining }]);
        }
        Ok(Outcome { transfers, events: Vec::new() })
    }

    pub open spec fn set_delegate_error(&self, caller: Address, stream_id: u64, delegate: Address) -> Option<Error> {
        if !self.has_stream(stream_id) {
            Some(Error::StreamNotFound)
        } else if caller != self.record(stream_id).stream.recipient {
            Some(Error::Unauthorized)
        } else if delegate == self.record(stream_id).stream.recipient {
            Some(Error::InvalidDelegate)
        } else {
            None
        }
    }

    /// Grants `delegate` the right to withdraw from the stream, replacing any earlier
    /// delegate. Recipient only; the recipient cannot name itself.
    pub fn set_delegate(&mut self, caller: Address, stream_id: u64, delegate: Address) -> (r: Result<Outcome, Error>)
        requires
            old(self).wf(),
        ensures
            final(self).wf(),
            r is Err <==> old(self).set_delegate_error(caller, stream_id, delegate) is Some,
            r matches Err(e) ==> *final(self) == *old(self)
                && Some(e) == old(self).set_delegate_error(caller, stream_id, delegate),
            r matches Ok(o) ==> {
                let rec = old(self).record(stream_id);
                let now = old(self).clock();
                let granted = Event::DelegationGranted(
                    DelegationGrantedEvent { stream_id, recipient: rec.stream.recipient, delegate },
                );
                &&& final(self).same_settings(old(self))
                &&& final(self).records() == old(self).records().update(
                    stream_id - 1,
                    StreamRecord {
                        delegate: Some(delegate),
                        metrics: StreamMetrics {
                            total_delegations: sat_inc32(rec.metrics.total_delegations),
                            current_delegate: Some(delegate),
                            last_delegation_time: now,
                            last_activity: now,
                            ..rec.metrics
                        },
                        ..rec
                    },
                )
                &&& final(self).totals() == (ProtocolMetrics {
                    total_delegations: sat_inc(old(self).totals().total_delegations),
                    ..old(self).totals()
                })
                &&& o.transfers@ == Seq::<Transfer>::empty()
                &&& o.events@ == (match rec.delegate {
                    Some(prev) => if prev != delegate {
                        seq![
                            Event::DelegationRevoked(
                                DelegationRevokedEvent { stream_id, recipient: rec.stream.recipient },
                            ),
                            granted,
                        ]
                    } else {
                        seq![granted]
                    },
                    None => seq![granted],
                })
            },
    {
        let i = match self.lookup(stream_id) {
            Ok(i) => i,
            Err(e) => return Err(e),
        };
        let mut rec = self.records[i];
        if caller != rec.stream.recipient {
            return Err(Error::Unauthorized);
        }
        if delegate == rec.stream.recipient {
            return Err(Error::InvalidDelegate);
        }
        let mut events: Vec<Event> = Vec::new();
        match rec.delegate {
            Some(prev) => {
                if prev != delegate {
                    events.push(
                        Event::DelegationRevoked(
                            DelegationRevokedEvent { stream_id, recipient: rec.stream.recipient },
                        ),
                    );
                }
            },
            None => {},
        }
        events.push(
            Event::DelegationGranted(
                DelegationGrantedEvent { stream_id, recipient: rec.stream.recipient, delegate },
            ),
        );
        let ghost before = *self;
        rec.delegate = Some(delegate);
        rec.metrics.total_delegations = rec.metrics.total_delegations.saturating_add(1);
        rec.metrics.current_delegate = Some(delegate);
        rec.metrics.last_delegation_time = self.now;
        rec.metrics.last_activity = self.now;
        self.records[i] = rec;
        self.totals.total_delegations = self.totals.total_delegations.saturating_add(1);
        assert forall|j: int| 0 <= j < self.records().len() implies #[trigger] record_wf(
            self.records()[j],
            j,
            self.clock() as int,
        ) by {
            assert(record_wf(before.records()[j], j, before.clock() as int));
        }
        proof {
            let rec0 = before.record(stream_id);
            let granted = Event::DelegationGranted(
                DelegationGrantedEvent { stream_id, recipient: rec0.stream.recipient, delegate },
            );
            match rec0.delegate {
                Some(prev) => {
                    if prev != delegate {
                        assert(events@ =~= seq![
                            Event::DelegationRevoked(
                                DelegationRevokedEvent { stream_id, recipient: rec0.stream.recipient },
                            ),
                            granted,
                        ]);
                    } else {
                        assert(events@ =~= seq![granted]);
                    }
                },
                None => {
                    assert(events@ =~= seq![granted]);
                },
            }
        }
        Ok(Outcome { transfers: Vec::new(), events })
    }

    pub open spec fn revoke_delegate_error(&self, caller: Address, stream_id: u64) -> Option<Error> {
        if !self.has_stream(stream_id) {
            Some(Error::StreamNotFound)
        } else if caller != self.record(stream_id).stream.recipient {
            Some(Error::Unauthorized)
        } else {
            None
        }
    }

    /// Withdraws the delegate's right. Recipient only. Where no delegate is registered
    /// nothing changes and nothing is announced.
    pub fn revoke_delegate(&mut self, caller: Address, stream_id: u64) -> (r: Result<Outcome, Error>)
        requires
            old(self).wf(),
        ensures
            final(self).wf(),
            r is Err <==> old(self).revoke_delegate_error(caller, stream_id) is Some,
            r matches Err(e) ==> *final(self) == *old(self)
                && Some(e) == old(self).revoke_delegate_error(caller, stream_id),
            r matches Ok(o) ==> {
                let rec = old(self).record(stream_id);
                &&& o.transfers@ == Seq::<Transfer>::empty()
                &&& final(self).same_settings(old(self))
                &&& final(self).totals() == old(self).totals()
                &&& if rec.delegate is Some {
                    &&& final(self).records() == old(self).records().update(
                        stream_id - 1,
                        StreamRecord {
                            delegate: None,
                            metrics: StreamMetrics {
                                current_delegate: None,
                                last_activity: old(self).clock(),
                                ..rec.metrics
                            },
                            ..rec
                        },
                    )
                    &&& o.events@ == seq![
                        Event::DelegationRevoked(
                            DelegationRevokedEvent { stream_id, recipient: rec.stream.recipient },
                        ),
                    ]
                } else {
                    &&& *final(self) == *old(self)
                    &&& o.events@ == Seq::<Event>::empty()
                }
            },
    {
        let i = match self.lookup(stream_id) {
            Ok(i) => i,
            Err(e) => return Err(e),
        };
        let mut rec = self.records[i];
        if caller != rec.stream.recipient {
            return Err(Error::Unauthorized);
        }
        if rec.delegate.is_none() {
            return Ok(Outcome { transfers: Vec::new(), events: Vec::new() });
        }
        let ghost before = *self;
        rec.delegate = None;
        rec.metrics.current_delegate = None;
        rec.metrics.last_activity = self.now;
        self.records[i] = rec;
        assert forall|j: int| 0 <= j < self.records().len() implies #[trigger] record_wf(
            self.records()[j],
            j,
            self.clock() as int,
        ) by {
            assert(record_wf(before.records()[j], j, before.clock() as int));
        }
        let events: Vec<Event> = vec![
            Event::DelegationRevoked(
                DelegationRevokedEvent { stream_id, recipient: rec.stream.recipient },
            ),
        ];
        Ok(Outcome { transfers: Vec::new(), events })
    }

    /// The delegate registered on the stream, if any.
    pub fn get_delegate(&self, stream_id: u64) -> (r: Result<Option<Address>, Error>)
        requires
            self.wf(),
        ensures
            r == (if self.has_stream(stream_id) {
                Ok::<Option<Address>, Error>(self.record(stream_id).delegate)
            } else {
                Err::<Option<Address>, Error>(Error::StreamNotFound)
            }),
    {
        let i = match self.lookup(stream_id) {
            Ok(i) => i,
            Err(e) => return Err(e),
        };
        Ok(self.records[i].delegate)
    }

    pub open spec fn set_fee_rate_error(&self, caller: Address, fee_rate: u32) -> Option<Error> {
        match self.config() {
            None => Some(Error::NotInitialized),
            Some(c) => if caller != c.admin {
                Some(Error::Unauthorized)
            } else if fee_rate > MAX_FEE {
                Some(Error::FeeTooHigh)
            } else {
                None
            },
        }
    }

    /// Sets the fee rate, in basis points, taken from withdrawals. Admin only.
    pub fn set_protocol_fee_rate(&mut self, caller: Address, fee_rate: u32) -> (r: Result<(), Error>)
        requires
            old(self).wf(),
        ensures
            final(self).wf(),
            r is Err <==> old(self).set_fee_rate_error(caller, fee_rate) is Some,
            r matches Err(e) ==> *final(self) == *old(self)
                && Some(e) == old(self).set_fee_rate_error(caller, fee_rate),
            r is Ok ==> {
                &&& final(self).config() == Some(Config { fee_rate, ..old(self).config().unwrap() })
                &&& final(self).escrow() == old(self).escrow()
                &&& final(self).delegate_policy() == old(self).delegate_policy()
                &&& final(self).clock() == old(self).clock()
                &&& final(self).records() == old(self).records()
                &&& final(self).totals() == old(self).totals()
            },
    {
        let config = match self.config {
            Some(c) => c,
            None => return Err(Error::NotInitialized),
        };
        if caller != config.admin {
            return Err(Error::Unauthorized);
        }
        if fee_rate > MAX_FEE {
            return Err(Error::FeeTooHigh);
        }
        let ghost before = *self;
        self.config = Some(Config { fee_rate, ..config });
        assert forall|j: int| 0 <= j < self.records().len() implies #[trigger] record_wf(
            self.records()[j],
            j,
            self.clock() as int,
        ) by {
            assert(record_wf(before.records()[j], j, before.clock() as int));
        }
        Ok(())
    }

    pub open spec fn set_fee_collector_error(&self, caller: Address) -> Option<Error> {
        match self.config() {
            None => Some(Error::NotInitialized),
            Some(c) => if caller != c.admin {
                Some(Error::Unauthorized)
            } else {
                None
            },
        }
    }

    /// Sets the account that receives withdrawal fees. Admin only.
    pub fn set_fee_collector(&mut self, caller: Address, fee_collector: Address) -> (r: Result<(), Error>)
        requires
            old(self).wf(),
        ensures
            final(self).wf(),
            r is Err <==> old(self).set_fee_collector_error(caller) is Some,
            r matches Err(e) ==> *final(self) == *old(self)
                && Some(e) == old(self).set_fee_collector_error(caller),
            r is Ok ==> {
                &&& final(self).config() == Some(Config { fee_collector, ..old(self).config().unwrap() })
                &&& final(self).escrow() == old(self).escrow()
                &&& final(self).delegate_policy() == old(self).delegate_policy()
                &&& final(self).clock() == old(self).clock()
                &&& final(self).records() == old(self).records()
                &&& final(self).totals() == old(self).totals()
            },
    {
        let config = match self.config {
            Some(c) => c,
            None => return Err(Error::NotInitialized),
        };
        if caller != config.admin {
            return Err(Error::Unauthorized);
        }
        let ghost before = *self;
        self.config = Some(Config { fee_collector, ..config });
        assert forall|j: int| 0 <= j < self.records().len() implies #[trigger] record_wf(
            self.records()[j],
            j,
            self.clock() as int,
        ) by {
            assert(record_wf(before.records()[j], j, before.clock() as int));
        }
        Ok(())
    }

    /// The fee rate in basis points; zero before initialization.
    pub fn get_protocol_fee_rate(&self) -> (r: u32)
        ensures
            r == self.fee_rate(),
    {
        match self.config {
            Some(c) => c.fee_rate,
            None => 0,
        }
    }

    /// The account that receives withdrawal fees.
    pub fn get_fee_collector(&self) -> (r: Result<Address, Error>)
        ensures
            r == (match self.config() {
                Some(c) => Ok::<Address, Error>(c.fee_collector),
                None => Err::<Address, Error>(Error::NotInitialized),
            }),
    {
        match self.config {
            Some(c) => Ok(c.fee_collector),
            None => Err(Error::NotInitialized),
        }
    }

    /// The admin, once initialized.
    pub fn get_admin(&self) -> (r: Option<Address>)
        ensures
            r == (match self.config() {
                Some(c) => Some(c.admin),
                None => None::<Address>,
            }),
    {
        match self.config {
            Some(c) => Some(c.admin),
            None => None,
        }
    }

    /// The activity counters of a stream.
    pub fn get_stream_metrics(&self, stream_id: u64) -> (r: Result<StreamMetrics, Error>)
        requires
            self.wf(),
        ensures
            r == (if self.has_stream(stream_id) {
                Ok::<StreamMetrics, Error>(self.record(stream_id).metrics)
            } else {
                Err::<StreamMetrics, Error>(Error::StreamNotFound)
            }),
    {
        let i = match self.lookup(stream_id) {
            Ok(i) => i,
            Err(e) => return Err(e),
        };
        Ok(self.records[i].metrics)
    }

    /// The counters over all streams.
    pub fn get_protocol_metrics(&self) -> (r: ProtocolMetrics)
        ensures
            r == self.totals(),
    {
        self.totals
    }

    pub open spec fn request_cancel_error(&self, stream_id: u64, requester: Address) -> Option<Error> {
        if !self.has_stream(stream_id) {
            Some(Error::StreamNotFound)
        } else {
            let rec = self.record(stream_id);
            if requester != rec.stream.sender && requester != rec.stream.recipient {
                Some(Error::Unauthorized)
            } else if !is_live(rec.stream) {
                Some(Error::StreamCannotBeCanceled)
            } else if rec.cancel_request is Some {
                Some(Error::CancelRequestExists)
            } else {
                None
            }
        }
    }

    /// Records `requester`'s wish to end a live stream by mutual consent. Either party
    /// may ask; at most one request is pending per stream.
    pub fn request_cancel(&mut self, stream_id: u64, requester: Address) -> (r: Result<(), Error>)
        requires
            old(self).wf(),
        ensures
            final(self).wf(),
            r is Err <==> old(self).request_cancel_error(stream_id, requester) is Some,
            r matches Err(e) ==> *final(self) == *old(self)
                && Some(e) == old(self).request_cancel_error(stream_id, requester),
            r is Ok ==> {
                &&& final(self).same_settings(old(self))
                &&& final(self).totals() == old(self).totals()
                &&& final(self).records() == old(self).records().update(
                    stream_id - 1,
                    StreamRecord {
                        cancel_request: Some(
                            CancelRequest { stream_id, requester, created_at: old(self).clock() },
                        ),
                        ..old(self).record(stream_id)
                    },
                )
            },
    {
        let i = match self.lookup(stream_id) {
            Ok(i) => i,
            Err(e) => return Err(e),
        };
        let mut rec = self.records[i];
        if requester != rec.stream.sender && requester != rec.stream.recipient {
            return Err(Error::Unauthorized);
        }
        if rec.stream.status != StreamStatus::Active && rec.stream.status != StreamStatus::Paused {
            return Err(Error::StreamCannotBeCanceled);
        }
        if rec.cancel_request.is_some() {
            return Err(Error::CancelRequestExists);
        }
        let ghost before = *self;
        rec.cancel_request = Some(CancelRequest { stream_id, requester, created_at: self.now });
        self.records[i] = rec;
        assert forall|j: int| 0 <= j < self.records().len() implies #[trigger] record_wf(
            self.records()[j],
            j,
            self.clock() as int,
        ) by {
            assert(record_wf(before.records()[j], j, before.clock() as int));
        }
        Ok(())
    }

    pub open spec fn cancel_consensual_error(&self, stream_id: u64, approver: Address) -> Option<Error> {
        if !self.has_stream(stream_id) {
            Some(Error::StreamNotFound)
        } else {
            let rec = self.record(stream_id);
            if approver != rec.stream.sender && approver != rec.stream.recipient {
                Some(Error::Unauthorized)
            } else if rec.cancel_request is None {
                Some(Error::CancelRequestNotFound)
            } else if approver == rec.cancel_request.unwrap().requester {
                Some(Error::Unauthorized)
            } else if !is_live(rec.stream) {
                Some(Error::StreamCannotBeCanceled)
            } else if rec.stream.balance < rec.stream.total_amount {
                Some(Error::InsufficientWithdrawable)
            } else {
                None
            }
        }
    }

    /// The other party approves the pending request: the stream is canceled, the recipient
    /// is paid what has vested (up to the pause, for a paused stream) and not been
    /// withdrawn, and the sender gets back the rest of the total. The escrow must hold the
    /// whole total for the split to be paid.
    pub fn cancel_consensual(&mut self, stream_id: u64, approver: Address) -> (r: Result<Settlement, Error>)
        requires
            old(self).wf(),
        ensures
            final(self).wf(),
            r is Err <==> old(self).cancel_consensual_error(stream_id, approver) is Some,
            r matches Err(e) ==> *final(self) == *old(self)
                && Some(e) == old(self).cancel_consensual_error(stream_id, approver),
            r matches Ok(st) ==> {
                let rec = old(self).record(stream_id);
                let s = rec.stream;
                let now = old(self).clock() as int;
                let payout = consensual_payout(s, now);
                let refund = consensual_refund(s, now);
                &&& st.recipient_payout == payout
                &&& st.sender_refund == refund
                &&& final(self).same_settings(old(self))
                &&& final(self).records() == old(self).records().update(
                    stream_id - 1,
                    StreamRecord {
                        stream: Stream { status: StreamStatus::Canceled, paused_at: None, ..s },
                        metrics: StreamMetrics { last_activity: old(self).clock(), ..rec.metrics },
                        cancel_request: None,
                        ..rec
                    },
                )
                &&& final(self).totals() == (ProtocolMetrics {
                    total_active_streams: if s.status == StreamStatus::Active {
                        sat_dec(old(self).totals().total_active_streams)
                    } else {
                        old(self).totals().total_active_streams
                    },
                    ..old(self).totals()
                })
                &&& st.outcome.transfers@ == (if payout > 0 {
                    seq![Transfer { token: s.token, from: old(self).escrow(), to: s.recipient, amount: payout as i128 }]
                } else {
                    Seq::<Transfer>::empty()
                }) + (if refund > 0 {
                    seq![Transfer { token: s.token, from: old(self).escrow(), to: s.sender, amount: refund as i128 }]
                } else {
                    Seq::<Transfer>::empty()
                })
                &&& st.outcome.events@ == Seq::<Event>::empty()
            },
    {
        let i = match self.lookup(stream_id) {
            Ok(i) => i,
            Err(e) => return Err(e),
        };
        let mut rec = self.records[i];
        assert(record_wf(self.records()[i as int], i as int, self.clock() as int));
        if approver != rec.stream.sender && approver != rec.stream.recipient {
            return Err(Error::Unauthorized);
        }
        let request = match rec.cancel_request {
            Some(c) => c,
            None => return Err(Error::CancelRequestNotFound),
        };
        if approver == request.requester {
            return Err(Error::Unauthorized);
        }
        if rec.stream.status != StreamStatus::Active && rec.stream.status != StreamStatus::Paused {
            return Err(Error::StreamCannotBeCanceled);
        }
        if rec.stream.balance < rec.stream.total_amount {
            return Err(Error::InsufficientWithdrawable);
        }
        let at: u64 = match rec.stream.paused_at {
            Some(p) => p,
            None => self.now,
        };
        let vested: i128 = vested_amount(&rec.stream, at);
        let payout: i128 = vested - rec.stream.withdrawn_amount;
        let refund: i128 = rec.stream.total_amount - vested;
        let was_active: bool = rec.stream.status == StreamStatus::Active;
        let ghost before = *self;
        let ghost s0 = rec.stream;
        rec.stream.status = StreamStatus::Canceled;
        rec.stream.paused_at = None;
        rec.metrics.last_activity = self.now;
        rec.cancel_request = None;
        self.records[i] = rec;
        if was_active {
            self.totals.total_active_streams = self.totals.total_active_streams.saturating_sub(1);
        }
        assert forall|j: int| 0 <= j < self.records().len() implies #[trigger] record_wf(
            self.records()[j],
            j,
            self.clock() as int,
        ) by {
            assert(record_wf(before.records()[j], j, before.clock() as int));
        }
        let mut transfers: Vec<Transfer> = Vec::new();
        if payout > 0 {
            transfers.push(Transfer { token: rec.stream.token, from: self.address, to: rec.stream.recipient, amount: payout });
        }
        if refund > 0 {
            transfers.push(Transfer { token: rec.stream.token, from: self.address, to: rec.stream.sender, amount: refund });
        }
        proof {
            let pay_part = if payout > 0 {
                seq![Transfer { token: s0.token, from: self.address, to: s0.recipient, amount: payout }]
            } else {
                Seq::<Transfer>::empty()
            };
            let refund_part = if refund > 0 {
                seq![Transfer { token: s0.token, from: self.address, to: s0.sender, amount: refund }]
            } else {
                Seq::<Transfer>::empty()
            };
            assert(transfers@ =~= pay_part + refund_part);
        }
        let outcome = Outcome { transfers, events: Vec::new() };
        Ok(Settlement { recipient_payout: payout, sender_refund: refund, outcome })
    }

    pub open spec fn revoke_cancel_request_error(&self, stream_id: u64, requester: Address) -> Option<Error> {
        if !self.has_stream(stream_id) {
            Some(Error::StreamNotFound)
        } else {
            match self.record(stream_id).cancel_request {
                None => Some(Error::CancelRequestNotFound),
                Some(c) => if c.requester != requester {
                    Some(Error::Unauthorized)
                } else {
                    None
                },
            }
        }
    }

    /// Withdraws a pending cancellation request; only the party that made it may.
    pub fn revoke_cancel_request(&mut self, stream_id: u64, requester: Address) -> (r: Result<(), Error>)
        requires
            old(self).wf(),
        ensures
            final(self).wf(),
            r is Err <==> old(self).revoke_cancel_request_error(stream_id, requester) is Some,
            r matches Err(e) ==> *final(self) == *old(self)
                && Some(e) == old(self).revoke_cancel_request_error(stream_id, requester),
            r is Ok ==> {
                &&& final(self).same_settings(old(self))
                &&& final(self).totals() == old(self).totals()
                &&& final(self).records() == old(self).records().update(
                    stream_id - 1,
                    StreamRecord { cancel_request: None, ..old(self).record(stream_id) },
                )
            },
    {
        let i = match self.lookup(stream_id) {
            Ok(i) => i,
            Err(e) => return Err(e),
        };
        let mut rec = self.records[i];
        match rec.cancel_request {
            None => return Err(Error::CancelRequestNotFound),
            Some(c) => {
                if c.requester != requester {
                    return Err(Error::Unauthorized);
                }
            },
        }
        let ghost before = *self;
        rec.cancel_request = None;
        self.records[i] = rec;
        assert forall|j: int| 0 <= j < self.records().len() implies #[trigger] record_wf(
            self.records()[j],
            j,
            self.clock() as int,
        ) by {
            assert(record_wf(before.records()[j], j, before.clock() as int));
        }
        Ok(())
    }

    /// The pending cancellation request of a stream, if any.
    pub fn get_cancel_request(&self, stream_id: u64) -> (r: Result<Option<CancelRequest>, Error>)
        requires
            self.wf(),
        ensures
            r == (if self.has_stream(stream_id) {
                Ok::<Option<CancelRequest>, Error>(self.record(stream_id).cancel_request)
            } else {
                Err::<Option<CancelRequest>, Error>(Error::StreamNotFound)
            }),
    {
        let i = match self.lookup(stream_id) {
            Ok(i) => i,
            Err(e) => return Err(e),
        };
        Ok(self.records[i].cancel_request)
    }

    /// The stream with id `stream_id`.
    pub fn get_stream(&self, stream_id: u64) -> (r: Result<Stream, Error>)
        requires
            self.wf(),
        ensures
            r == (if self.has_stream(stream_id) {
                Ok::<Stream, Error>(self.record(stream_id).stream)
            } else {
                Err::<Stream, Error>(Error::StreamNotFound)
            }),
    {
        let i = match self.lookup(stream_id) {
            Ok(i) => i,
            Err(e) => return Err(e),
        };
        Ok(self.records[i].stream)
    }

    /// What the recipient of `stream_id` may withdraw now; zero unless the stream is active.
    pub fn withdrawable_amount(&self, stream_id: u64) -> (r: Result<i128, Error>)
        requires
            self.wf(),
        ensures
            r == (if self.has_stream(stream_id) {
                Ok::<i128, Error>(
                    withdrawable_at(self.record(stream_id).stream, self.clock() as int) as i128,
                )
            } else {
                Err::<i128, Error>(Error::StreamNotFound)
            }),
            r matches Ok(v) ==> v >= 0,
            self.has_stream(stream_id) ==> 0 <= withdrawable_at(
                self.record(stream_id).stream,
                self.clock() as int,
            ) <= self.record(stream_id).stream.total_amount,
    {
        let i = match self.lookup(stream_id) {
            Ok(i) => i,
            Err(e) => return Err(e),
        };
        let s = self.records[i].stream;
        assert(record_wf(self.records()[i as int], i as int, self.clock() as int));
        let v = withdrawable_at_time(&s, self.now);
        proof {
            lemma_vested_bounds(s, self.now as int);
        }
        Ok(v)
    }
}

} // verus!
