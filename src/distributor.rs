use std::collections::HashMap;
use vstd::prelude::*;
use crate::contract::{sat_inc, sat_inc32};
use crate::types::{Address, Outcome, Transfer};

verus! {

broadcast use vstd::std_specs::hash::group_hash_axioms;

/// Totals of what has been distributed in one token.
#[derive(Clone, Copy, Debug, PartialEq, Eq)]
pub struct TokenStats {
    pub total_amount: i128,
    pub distribution_count: u32,
    pub last_time: u64,
}

/// Totals of what one sender has distributed.
#[derive(Clone, Copy, Debug, PartialEq, Eq)]
pub struct UserStats {
    pub distributions_initiated: u32,
    pub total_amount: i128,
}

/// One entry of the append-only log of distributions.
#[derive(Clone, Copy, Debug, PartialEq, Eq)]
pub struct DistributionHistory {
    pub sender: Address,
    pub token: Address,
    pub amount: i128,
    pub recipients_count: u32,
    pub timestamp: u64,
}

#[derive(Clone, Copy, Debug, PartialEq, Eq, Structural)]
pub enum DistributionError {
    AlreadyInitialized,
    NotInitialized,
    Unauthorized,
    /// The list of recipients is empty.
    NoRecipients,
    /// An amount is zero or negative.
    InvalidAmount,
    /// An equal share would round down to nothing.
    AmountTooSmall,
    /// Recipients and amounts differ in number.
    LengthMismatch,
    ArithmeticOverflow,
}

/// One-shot split of a sender's tokens among many recipients, with a flat
/// protocol fee and running statistics.
pub struct DistributorContract {
    admin: Option<Address>,
    fee_percent: u32,
    fee_address: Option<Address>,
    total_distributions: u64,
    total_distributed: i128,
    token_stats: HashMap<u64, TokenStats>,
    user_stats: HashMap<u64, UserStats>,
    history: Vec<DistributionHistory>,
    now: u64,
}

/// The protocol fee on `amount` at `percent` hundredths of a percent, rounded down.
pub open spec fn distribution_fee(amount: int, percent: int) -> int {
    amount * percent / 10000
}

pub open spec fn seq_sum(s: Seq<i128>) -> int
    decreases s.len(),
{
    if s.len() == 0 {
        0
    } else {
        seq_sum(s.drop_last()) + s.last()
    }
}

pub open spec fn all_positive(s: Seq<i128>) -> bool {
    forall|i: int| 0 <= i < s.len() ==> s[i] > 0
}

proof fn lemma_sum_prefix_le(s: Seq<i128>, i: int)
    requires
        all_positive(s),
        0 <= i <= s.len(),
    ensures
        0 <= seq_sum(s.subrange(0, i)) <= seq_sum(s),
    decreases s.len(),
{
    if s.len() > 0 {
        if i == s.len() {
            assert(s.subrange(0, i) =~= s);
            lemma_sum_prefix_le(s.drop_last(), i - 1);
            assert(s.drop_last().subrange(0, i - 1) =~= s.drop_last());
        } else {
            lemma_sum_prefix_le(s.drop_last(), i);
            assert(s.drop_last().subrange(0, i) =~= s.subrange(0, i));
        }
    }
}

fn all_amounts_positive(amounts: &Vec<i128>) -> (r: bool)
    ensures
        r == all_positive(amounts@),
{
    let mut i: usize = 0;
    while i < amounts.len()
        invariant
            0 <= i <= amounts@.len(),
            forall|j: int| 0 <= j < i ==> amounts@[j] > 0,
        decreases amounts@.len() - i,
    {
        if amounts[i] <= 0 {
            return false;
        }
        i = i + 1;
    }
    true
}

/// The sum of positive `amounts`, unless it passes `i128::MAX`.
fn checked_sum(amounts: &Vec<i128>) -> (r: Option<i128>)
    requires
        all_positive(amounts@),
    ensures
        r == (if seq_sum(amounts@) > i128::MAX {
            None::<i128>
        } else {
            Some(seq_sum(amounts@) as i128)
        }),
        r matches Some(t) ==> amounts@.len() > 0 ==> t > 0,
        seq_sum(amounts@) >= 0,
{
    proof {
        lemma_sum_prefix_le(amounts@, 0);
    }
    let n: usize = amounts.len();
    let mut total: i128 = 0;
    let mut i: usize = 0;
    while i < n
        invariant
            n == amounts@.len(),
            0 <= i <= n,
            all_positive(amounts@),
            total == seq_sum(amounts@.subrange(0, i as int)),
            i > 0 ==> total > 0,
        decreases n - i,
    {
        proof {
            assert(amounts@.subrange(0, i + 1).drop_last() =~= amounts@.subrange(0, i as int));
            lemma_sum_prefix_le(amounts@, (i + 1) as int);
        }
        total = match total.checked_add(amounts[i]) {
            Some(t) => t,
            None => return None,
        };
        i = i + 1;
    }
    assert(amounts@.subrange(0, n as int) =~= amounts@);
    Some(total)
}

/// The map that inserting `entries` in order builds; a later entry overrides an earlier one.
pub open spec fn entries_map<V>(entries: Seq<(u64, V)>) -> Map<u64, V>
    decreases entries.len(),
{
    if entries.len() == 0 {
        Map::empty()
    } else {
        entries_map(entries.drop_last()).insert(entries.last().0, entries.last().1)
    }
}

/// The fee transfer, if any, that opens a distribution.
pub open spec fn fee_transfers(
    token: Address,
    sender: Address,
    fee_address: Option<Address>,
    fee: int,
) -> Seq<Transfer> {
    if fee > 0 {
        seq![Transfer { token, from: sender, to: fee_address.unwrap(), amount: fee as i128 }]
    } else {
        Seq::<Transfer>::empty()
    }
}

pub open spec fn token_totals_within(m: Map<u64, TokenStats>, total: int) -> bool {
    forall|k: u64| m.contains_key(k) ==> 0 <= #[trigger] m[k].total_amount <= total
}

pub open spec fn user_totals_within(m: Map<u64, UserStats>, total: int) -> bool {
    forall|k: u64| m.contains_key(k) ==> 0 <= #[trigger] m[k].total_amount <= total
}

impl DistributorContract {
    pub closed spec fn admin(&self) -> Option<Address> {
        self.admin
    }

    /// The fee rate, in hundredths of a percent.
    pub closed spec fn fee_percent(&self) -> u32 {
        self.fee_percent
    }

    pub closed spec fn fee_address(&self) -> Option<Address> {
        self.fee_address
    }

    pub closed spec fn total_distributions(&self) -> u64 {
        self.total_distributions
    }

    pub closed spec fn total_distributed(&self) -> i128 {
        self.total_distributed
    }

    /// Statistics per token, keyed by the token's address number.
    pub closed spec fn token_stats(&self) -> Map<u64, TokenStats> {
        self.token_stats@
    }

    /// Statistics per sender, keyed by the sender's address number.
    pub closed spec fn user_stats(&self) -> Map<u64, UserStats> {
        self.user_stats@
    }

    pub closed spec fn history(&self) -> Seq<DistributionHistory> {
        self.history@
    }

    pub closed spec fn clock(&self) -> u64 {
        self.now
    }

    /// Every running total is covered by the grand total, and a fee can be paid somewhere.
    pub open spec fn wf(&self) -> bool {
        &&& self.total_distributed() >= 0
        &&& (self.fee_percent() > 0 ==> self.fee_address() is Some)
        &&& (self.admin() is Some ==> self.fee_address() is Some)
        &&& token_totals_within(self.token_stats(), self.total_distributed() as int)
        &&& user_totals_within(self.user_stats(), self.total_distributed() as int)
    }

    /// The settings stay as they were.
    pub open spec fn same_settings(&self, other: &Self) -> bool {
        &&& self.admin() == other.admin()
        &&& self.fee_percent() == other.fee_percent()
        &&& self.fee_address() == other.fee_address()
        &&& self.clock() == other.clock()
    }

    pub fn new(now: u64) -> (r: Self)
        ensures
            r.wf(),
            r.admin() is None,
            r.fee_percent() == 0,
            r.fee_address() is None,
            r.total_distributions() == 0,
            r.total_distributed() == 0,
            r.token_stats() == Map::<u64, TokenStats>::empty(),
            r.user_stats() == Map::<u64, UserStats>::empty(),
            r.history() == Seq::<DistributionHistory>::empty(),
            r.clock() == now,
    {
        DistributorContract {
            admin: None,
            fee_percent: 0,
            fee_address: None,
            total_distributions: 0,
            total_distributed: 0,
            token_stats: HashMap::new(),
            user_stats: HashMap::new(),
            history: Vec::new(),
            now,
        }
    }

    /// The state that `restore` accepts: every stored total within the grand total, and
    /// a fee account wherever a fee can fall due.
    pub open spec fn restorable(
        admin: Option<Address>,
        fee_percent: u32,
        fee_address: Option<Address>,
        total_distributed: i128,
        tokens: Seq<(u64, TokenStats)>,
        users: Seq<(u64, UserStats)>,
    ) -> bool {
        &&& total_distributed >= 0
        &&& (fee_percent > 0 ==> fee_address is Some)
        &&& (admin is Some ==> fee_address is Some)
        &&& forall|i: int|
            0 <= i < tokens.len() ==> 0 <= #[trigger] tokens[i].1.total_amount
                <= total_distributed
        &&& forall|i: int|
            0 <= i < users.len() ==> 0 <= #[trigger] users[i].1.total_amount <= total_distributed
    }

    /// Rebuilds a distributor from stored state, provided the state is consistent.
    pub fn restore(
        admin: Option<Address>,
        fee_percent: u32,
        fee_address: Option<Address>,
        total_distributions: u64,
        total_distributed: i128,
        tokens: Vec<(u64, TokenStats)>,
        users: Vec<(u64, UserStats)>,
        history: Vec<DistributionHistory>,
        now: u64,
    ) -> (r: Option<Self>)
        ensures
            r is Some <==> Self::restorable(
                admin,
                fee_percent,
                fee_address,
                total_distributed,
                tokens@,
                users@,
            ),
            r matches Some(d) ==> {
                &&& d.wf()
                &&& d.admin() == admin
                &&& d.fee_percent() == fee_percent
                &&& d.fee_address() == fee_address
                &&& d.total_distributions() == total_distributions
                &&& d.total_distributed() == total_distributed
                &&& d.token_stats() == entries_map(tokens@)
                &&& d.user_stats() == entries_map(users@)
                &&& d.history() == history@
                &&& d.clock() == now
            },
    {
        if total_distributed < 0 {
            return None;
        }
        if fee_address.is_none() && (fee_percent > 0 || admin.is_some()) {
            return None;
        }
        let mut token_stats: HashMap<u64, TokenStats> = HashMap::new();
        let mut i: usize = 0;
        while i < tokens.len()
            invariant
                0 <= i <= tokens@.len(),
                forall|j: int| 0 <= j < i ==> 0 <= #[trigger] tokens@[j].1.total_amount
                    <= total_distributed,
                token_stats@ == entries_map(tokens@.subrange(0, i as int)),
                token_totals_within(token_stats@, total_distributed as int),
            decreases tokens@.len() - i,
        {
            let (k, v) = tokens[i];
            if v.total_amount < 0 || v.total_amount > total_distributed {
                return None;
            }
            token_stats.insert(k, v);
            proof {
                assert(tokens@.subrange(0, i + 1).drop_last() =~= tokens@.subrange(0, i as int));
            }
            i = i + 1;
        }
        assert(tokens@.subrange(0, tokens@.len() as int) =~= tokens@);
        let mut user_stats: HashMap<u64, UserStats> = HashMap::new();
        let mut i: usize = 0;
        while i < users.len()
            invariant
                0 <= i <= users@.len(),
                forall|j: int| 0 <= j < tokens@.len() ==> 0 <= #[trigger] tokens@[j].1.total_amount
                    <= total_distributed,
                forall|j: int| 0 <= j < i ==> 0 <= #[trigger] users@[j].1.total_amount
                    <= total_distributed,
                user_stats@ == entries_map(users@.subrange(0, i as int)),
                user_totals_within(user_stats@, total_distributed as int),
            decreases users@.len() - i,
        {
            let (k, v) = users[i];
            if v.total_amount < 0 || v.total_amount > total_distributed {
                return None;
            }
            user_stats.insert(k, v);
            proof {
                assert(users@.subrange(0, i + 1).drop_last() =~= users@.subrange(0, i as int));
            }
            i = i + 1;
        }
        assert(users@.subrange(0, users@.len() as int) =~= users@);
        Some(DistributorContract {
            admin,
            fee_percent,
            fee_address,
            total_distributions,
            total_distributed,
            token_stats,
            user_stats,
            history,
            now,
        })
    }

    /// Moves the clock to `t`.
    pub fn set_timestamp(&mut self, t: u64)
        requires
            old(self).wf(),
        ensures
            final(self).wf(),
            final(self).clock() == t,
            final(self).admin() == old(self).admin(),
            final(self).fee_percent() == old(self).fee_percent(),
            final(self).fee_address() == old(self).fee_address(),
            final(self).total_distributions() == old(self).total_distributions(),
            final(self).total_distributed() == old(self).total_distributed(),
            final(self).token_stats() == old(self).token_stats(),
            final(self).user_stats() == old(self).user_stats(),
            final(self).history() == old(self).history(),
    {
        self.now = t;
    }

    pub open spec fn initialize_error(&self, caller: Address, admin: Address) -> Option<DistributionError> {
        if self.admin() is Some {
            Some(DistributionError::AlreadyInitialized)
        } else if caller != admin {
            Some(DistributionError::Unauthorized)
        } else {
            None
        }
    }

    /// Sets the admin, the fee rate and the fee account, once.
    pub fn initialize(
        &mut self,
        caller: Address,
        admin: Address,
        protocol_fee_percent: u32,
        fee_address: Address,
    ) -> (r: Result<(), DistributionError>)
        requires
            old(self).wf(),
        ensures
            final(self).wf(),
            r is Err <==> old(self).initialize_error(caller, admin) is Some,
            r matches Err(e) ==> *final(self) == *old(self)
                && Some(e) == old(self).initialize_error(caller, admin),
            r is Ok ==> {
                &&& final(self).admin() == Some(admin)
                &&& final(self).fee_percent() == protocol_fee_percent
                &&& final(self).fee_address() == Some(fee_address)
                &&& final(self).clock() == old(self).clock()
            },
            final(self).total_distributions() == old(self).total_distributions(),
            final(self).total_distributed() == old(self).total_distributed(),
            final(self).token_stats() == old(self).token_stats(),
            final(self).user_stats() == old(self).user_stats(),
            final(self).history() == old(self).history(),
    {
        if self.admin.is_some() {
            return Err(DistributionError::AlreadyInitialized);
        }
        if caller != admin {
            return Err(DistributionError::Unauthorized);
        }
        self.admin = Some(admin);
        self.fee_percent = protocol_fee_percent;
        self.fee_address = Some(fee_address);
        Ok(())
    }

    /// Whether recording a distribution of `amount` would overflow a running total.
    pub open spec fn totals_overflow(&self, amount: int) -> bool {
        self.total_distributed() + amount > i128::MAX
    }

    /// The statistics of `token` once a distribution of `amount` is counted.
    pub open spec fn next_token_stats(&self, token: Address, amount: int) -> TokenStats {
        let last_time = if self.clock() == 0 { 1u64 } else { self.clock() };
        if self.token_stats().contains_key(token.0) {
            let s = self.token_stats()[token.0];
            TokenStats {
                total_amount: (s.total_amount + amount) as i128,
                distribution_count: sat_inc32(s.distribution_count),
                last_time,
            }
        } else {
            TokenStats { total_amount: amount as i128, distribution_count: 1, last_time }
        }
    }

    /// The statistics of `sender` once a distribution of `amount` is counted.
    pub open spec fn next_user_stats(&self, sender: Address, amount: int) -> UserStats {
        if self.user_stats().contains_key(sender.0) {
            let s = self.user_stats()[sender.0];
            UserStats {
                distributions_initiated: sat_inc32(s.distributions_initiated),
                total_amount: (s.total_amount + amount) as i128,
            }
        } else {
            UserStats { distributions_initiated: 1, total_amount: amount as i128 }
        }
    }

    /// `post` is `self` with one more distribution of `amount` recorded.
    pub open spec fn recorded(
        &self,
        post: &Self,
        sender: Address,
        token: Address,
        amount: int,
        recipients_count: int,
    ) -> bool {
        &&& post.same_settings(self)
        &&& post.total_distributions() == sat_inc(self.total_distributions())
        &&& post.total_distributed() == self.total_distributed() + amount
        &&& post.token_stats() == self.token_stats().insert(
            token.0,
            self.next_token_stats(token, amount),
        )
        &&& post.user_stats() == self.user_stats().insert(
            sender.0,
            self.next_user_stats(sender, amount),
        )
        &&& post.history() == self.history().push(
            DistributionHistory {
                sender,
                token,
                amount: amount as i128,
                recipients_count: recipients_count as u32,
                timestamp: self.clock(),
            },
        )
    }

    fn fee_of(&self, amount: i128) -> (r: Option<i128>)
        requires
            amount > 0,
        ensures
            r == (if amount * self.fee_percent() > i128::MAX {
                None::<i128>
            } else {
                Some(distribution_fee(amount as int, self.fee_percent() as int) as i128)
            }),
            r matches Some(f) ==> f >= 0,
            r matches Some(f) && f > 0 ==> self.fee_percent() > 0,
    {
        match amount.checked_mul(self.fee_percent as i128) {
            Some(p) => {
                proof {
                    assert(0 <= amount * self.fee_percent) by (nonlinear_arith)
                        requires amount > 0;
                    if self.fee_percent == 0 {
                        assert(amount * self.fee_percent == 0) by (nonlinear_arith)
                            requires self.fee_percent == 0;
                    }
                }
                Some(p / 10000)
            },
            None => None,
        }
    }

    fn record(
        &mut self,
        sender: Address,
        token: Address,
        amount: i128,
        recipients_count: u32,
    )
        requires
            old(self).wf(),
            amount > 0,
            !old(self).totals_overflow(amount as int),
        ensures
            final(self).wf(),
            old(self).recorded(final(self), sender, token, amount as int, recipients_count as int),
    {
        let ghost before = *self;
        self.total_distributions = self.total_distributions.saturating_add(1);
        self.total_distributed = self.total_distributed + amount;
        let last_time: u64 = if self.now == 0 { 1 } else { self.now };
        let tstats = match self.token_stats.get(&token.0) {
            Some(s) => {
                assert(before.token_stats().contains_key(token.0));
                assert(0 <= before.token_stats()[token.0].total_amount <= before.total_distributed());
                TokenStats {
                    total_amount: s.total_amount + amount,
                    distribution_count: s.distribution_count.saturating_add(1),
                    last_time,
                }
            },
            None => TokenStats { total_amount: amount, distribution_count: 1, last_time },
        };
        self.token_stats.insert(token.0, tstats);
        let ustats = match self.user_stats.get(&sender.0) {
            Some(s) => {
                assert(before.user_stats().contains_key(sender.0));
                assert(0 <= before.user_stats()[sender.0].total_amount <= before.total_distributed());
                UserStats {
                    distributions_initiated: s.distributions_initiated.saturating_add(1),
                    total_amount: s.total_amount + amount,
                }
            },
            None => UserStats { distributions_initiated: 1, total_amount: amount },
        };
        self.user_stats.insert(sender.0, ustats);
        self.history.push(
            DistributionHistory { sender, token, amount, recipients_count, timestamp: self.now },
        );
        assert forall|k: u64| #[trigger] self.token_stats().contains_key(k) implies 0
            <= self.token_stats()[k].total_amount <= self.total_distributed() by {
            if k != token.0 {
                assert(before.token_stats().contains_key(k));
                assert(0 <= before.token_stats()[k].total_amount <= before.total_distributed());
            }
        }
        assert forall|k: u64| #[trigger] self.user_stats().contains_key(k) implies 0
            <= self.user_stats()[k].total_amount <= self.total_distributed() by {
            if k != sender.0 {
                assert(before.user_stats().contains_key(k));
                assert(0 <= before.user_stats()[k].total_amount <= before.total_distributed());
            }
        }
    }

    pub open spec fn equal_error(
        &self,
        caller: Address,
        sender: Address,
        total_amount: i128,
        recipients: Seq<Address>,
    ) -> Option<DistributionError> {
        if caller != sender {
            Some(DistributionError::Unauthorized)
        } else if recipients.len() == 0 {
            Some(DistributionError::NoRecipients)
        } else if total_amount <= 0 {
            Some(DistributionError::InvalidAmount)
        } else if (total_amount as int) / (recipients.len() as int) == 0 {
            Some(DistributionError::AmountTooSmall)
        } else if total_amount * self.fee_percent() > i128::MAX || self.totals_overflow(
            total_amount as int,
        ) {
            Some(DistributionError::ArithmeticOverflow)
        } else {
            None
        }
    }

    /// Splits `total_amount` equally among `recipients`, rounding each share down; the
    /// sender also pays the protocol fee on the total.
    pub fn distribute_equal(
        &mut self,
        caller: Address,
        sender: Address,
        token: Address,
        total_amount: i128,
        recipients: &Vec<Address>,
    ) -> (r: Result<Outcome, DistributionError>)
        requires
            old(self).wf(),
            recipients@.len() <= u32::MAX,
        ensures
            final(self).wf(),
            r is Err <==> old(self).equal_error(caller, sender, total_amount, recipients@) is Some,
            r matches Err(e) ==> *final(self) == *old(self)
                && Some(e) == old(self).equal_error(caller, sender, total_amount, recipients@),
            r matches Ok(o) ==> {
                let n = recipients@.len();
                let share = (total_amount as int) / (n as int);
                let fee = distribution_fee(total_amount as int, old(self).fee_percent() as int);
                &&& old(self).recorded(final(self), sender, token, total_amount as int, n as int)
                &&& o.transfers@ == fee_transfers(token, sender, old(self).fee_address(), fee) + Seq::new(
                    n,
                    |i: int| Transfer { token, from: sender, to: recipients@[i], amount: share as i128 },
                )
                &&& o.events@.len() == 0
            },
    {
        if caller != sender {
            return Err(DistributionError::Unauthorized);
        }
        let n: usize = recipients.len();
        if n == 0 {
            return Err(DistributionError::NoRecipients);
        }
        if total_amount <= 0 {
            return Err(DistributionError::InvalidAmount);
        }
        let share: i128 = total_amount / (n as i128);
        if share == 0 {
            return Err(DistributionError::AmountTooSmall);
        }
        let fee: i128 = match self.fee_of(total_amount) {
            Some(f) => f,
            None => return Err(DistributionError::ArithmeticOverflow),
        };
        if self.total_distributed > i128::MAX - total_amount {
            return Err(DistributionError::ArithmeticOverflow);
        }
        let mut transfers: Vec<Transfer> = Vec::new();
        if fee > 0 {
            let to = match self.fee_address {
                Some(a) => a,
                None => return Err(DistributionError::NotInitialized),
            };
            transfers.push(Transfer { token, from: sender, to, amount: fee });
        }
        let ghost head = transfers@;
        assert(head == fee_transfers(token, sender, self.fee_address(), fee as int));
        let mut i: usize = 0;
        while i < n
            invariant
                *self == *old(self),
                n == recipients@.len(),
                0 <= i <= n,
                transfers@ == head + Seq::new(
                    i as nat,
                    |j: int| Transfer { token, from: sender, to: recipients@[j], amount: share },
                ),
            decreases n - i,
        {
            transfers.push(Transfer { token, from: sender, to: recipients[i], amount: share });
            i = i + 1;
            assert(transfers@ =~= head + Seq::new(
                i as nat,
                |j: int| Transfer { token, from: sender, to: recipients@[j], amount: share },
            ));
        }
        self.record(sender, token, total_amount, n as u32);
        Ok(Outcome { transfers, events: Vec::new() })
    }

    pub open spec fn weighted_error(
        &self,
        caller: Address,
        sender: Address,
        recipients: Seq<Address>,
        amounts: Seq<i128>,
    ) -> Option<DistributionError> {
        if caller != sender {
            Some(DistributionError::Unauthorized)
        } else if recipients.len() != amounts.len() {
            Some(DistributionError::LengthMismatch)
        } else if recipients.len() == 0 {
            Some(DistributionError::NoRecipients)
        } else if !all_positive(amounts) {
            Some(DistributionError::InvalidAmount)
        } else if seq_sum(amounts) > i128::MAX || seq_sum(amounts) * self.fee_percent() > i128::MAX
            || self.totals_overflow(seq_sum(amounts)) {
            Some(DistributionError::ArithmeticOverflow)
        } else {
            None
        }
    }

    /// Pays each recipient its own amount; the sender also pays the protocol fee on the sum.
    pub fn distribute_weighted(
        &mut self,
        caller: Address,
        sender: Address,
        token: Address,
        recipients: &Vec<Address>,
        amounts: &Vec<i128>,
    ) -> (r: Result<Outcome, DistributionError>)
        requires
            old(self).wf(),
            recipients@.len() <= u32::MAX,
        ensures
            final(self).wf(),
            r is Err <==> old(self).weighted_error(caller, sender, recipients@, amounts@) is Some,
            r matches Err(e) ==> *final(self) == *old(self)
                && Some(e) == old(self).weighted_error(caller, sender, recipients@, amounts@),
            r matches Ok(o) ==> {
                let n = recipients@.len();
                let total = seq_sum(amounts@);
                let fee = distribution_fee(total, old(self).fee_percent() as int);
                &&& old(self).recorded(final(self), sender, token, total, n as int)
                &&& o.transfers@ == fee_transfers(token, sender, old(self).fee_address(), fee) + Seq::new(
                    n,
                    |i: int| Transfer { token, from: sender, to: recipients@[i], amount: amounts@[i] },
                )
                &&& o.events@.len() == 0
            },
    {
        if caller != sender {
            return Err(DistributionError::Unauthorized);
        }
        let n: usize = recipients.len();
        if n != amounts.len() {
            return Err(DistributionError::LengthMismatch);
        }
        if n == 0 {
            return Err(DistributionError::NoRecipients);
        }
        if !all_amounts_positive(amounts) {
            return Err(DistributionError::InvalidAmount);
        }
        let total: i128 = match checked_sum(amounts) {
            Some(t) => t,
            None => return Err(DistributionError::ArithmeticOverflow),
        };
        let fee: i128 = match self.fee_of(total) {
            Some(f) => f,
            None => return Err(DistributionError::ArithmeticOverflow),
        };
        if self.total_distributed > i128::MAX - total {
            return Err(DistributionError::ArithmeticOverflow);
        }
        let mut transfers: Vec<Transfer> = Vec::new();
        if fee > 0 {
            let to = match self.fee_address {
                Some(a) => a,
                None => return Err(DistributionError::NotInitialized),
            };
            transfers.push(Transfer { token, from: sender, to, amount: fee });
        }
        let ghost head = transfers@;
        assert(head == fee_transfers(token, sender, self.fee_address(), fee as int));
        let mut i: usize = 0;
        while i < n
            invariant
                *self == *old(self),
                n == recipients@.len(),
                n == amounts@.len(),
                0 <= i <= n,
                transfers@ == head + Seq::new(
                    i as nat,
                    |j: int| Transfer { token, from: sender, to: recipients@[j], amount: amounts@[j] },
                ),
            decreases n - i,
        {
            transfers.push(Transfer { token, from: sender, to: recipients[i], amount: amounts[i] });
            i = i + 1;
            assert(transfers@ =~= head + Seq::new(
                i as nat,
                |j: int| Transfer { token, from: sender, to: recipients@[j], amount: amounts@[j] },
            ));
        }
        self.record(sender, token, total, n as u32);
        Ok(Outcome { transfers, events: Vec::new() })
    }

    pub fn get_total_distributions(&self) -> (r: u64)
        ensures
            r == self.total_distributions(),
    {
        self.total_distributions
    }

    pub fn get_total_distributed_amount(&self) -> (r: i128)
        ensures
            r == self.total_distributed(),
    {
        self.total_distributed
    }

    pub fn get_token_stats(&self, token: Address) -> (r: Option<TokenStats>)
        ensures
            r == (if self.token_stats().contains_key(token.0) {
                Some(self.token_stats()[token.0])
            } else {
                None::<TokenStats>
            }),
    {
        match self.token_stats.get(&token.0) {
            Some(s) => Some(*s),
            None => None,
        }
    }

    pub fn get_user_stats(&self, user: Address) -> (r: Option<UserStats>)
        ensures
            r == (if self.user_stats().contains_key(user.0) {
                Some(self.user_stats()[user.0])
            } else {
                None::<UserStats>
            }),
    {
        match self.user_stats.get(&user.0) {
            Some(s) => Some(*s),
            None => None,
        }
    }

    /// The log entries numbered `start_id` up to, not including, `start_id + limit`, as far
    /// as they exist.
    pub fn get_distribution_history(&self, start_id: u64, limit: u64) -> (r: Vec<DistributionHistory>)
        ensures
            ({
                let len = self.history().len() as int;
                let lo = if start_id < len { start_id as int } else { len };
                let hi = if start_id + limit < len { start_id + limit } else { len };
                r@ == self.history().subrange(lo, if hi < lo { lo } else { hi })
            }),
    {
        let len: usize = self.history.len();
        let mut out: Vec<DistributionHistory> = Vec::new();
        if start_id as u128 >= len as u128 {
            return out;
        }
        let lo: usize = start_id as usize;
        let end: u128 = start_id as u128 + limit as u128;
        let hi: usize = if end < len as u128 { end as usize } else { len };
        let mut i: usize = lo;
        while i < hi
            invariant
                lo <= i <= hi <= len == self.history@.len(),
                out@ == self.history@.subrange(lo as int, i as int),
            decreases hi - i,
        {
            out.push(self.history[i]);
            i = i + 1;
            assert(out@ =~= self.history@.subrange(lo as int, i as int));
        }
        out
    }

    pub fn get_admin(&self) -> (r: Option<Address>)
        ensures
            r == self.admin(),
    {
        self.admin
    }

    pub open spec fn set_fee_error(&self, caller: Address, admin: Address) -> Option<DistributionError> {
        if caller != admin {
            Some(DistributionError::Unauthorized)
        } else if self.admin() is None {
            Some(DistributionError::NotInitialized)
        } else if self.admin() != Some(admin) {
            Some(DistributionError::Unauthorized)
        } else {
            None
        }
    }

    /// Changes the fee rate. Only the stored admin may.
    pub fn set_protocol_fee(&mut self, caller: Address, admin: Address, new_fee_percent: u32) -> (r: Result<
        (),
        DistributionError,
    >)
        requires
            old(self).wf(),
        ensures
            final(self).wf(),
            r is Err <==> old(self).set_fee_error(caller, admin) is Some,
            r matches Err(e) ==> *final(self) == *old(self)
                && Some(e) == old(self).set_fee_error(caller, admin),
            r is Ok ==> {
                &&& final(self).fee_percent() == new_fee_percent
                &&& final(self).admin() == old(self).admin()
                &&& final(self).fee_address() == old(self).fee_address()
                &&& final(self).clock() == old(self).clock()
                &&& final(self).total_distributions() == old(self).total_distributions()
                &&& final(self).total_distributed() == old(self).total_distributed()
                &&& final(self).token_stats() == old(self).token_stats()
                &&& final(self).user_stats() == old(self).user_stats()
                &&& final(self).history() == old(self).history()
            },
    {
        if caller != admin {
            return Err(DistributionError::Unauthorized);
        }
        match self.admin {
            None => return Err(DistributionError::NotInitialized),
            Some(a) => {
                if a != admin {
                    return Err(DistributionError::Unauthorized);
                }
            },
        }
        self.fee_percent = new_fee_percent;
        Ok(())
    }
}

} // verus!
