use vstd::prelude::*;

verus! {

/// An account or contract identity, as the host names it.
#[derive(Clone, Copy, Debug, PartialEq, Eq, Structural, Hash)]
pub struct Address(pub u64);

/// Where a stream stands in its lifecycle. `Canceled` and `Completed` are terminal.
#[derive(Clone, Copy, Debug, PartialEq, Eq, Structural)]
pub enum StreamStatus {
    Active,
    Paused,
    Canceled,
    Completed,
}

/// One escrow-backed, time-vested transfer from `sender` to `recipient`.
#[derive(Clone, Copy, Debug, PartialEq, Eq)]
pub struct Stream {
    pub id: u64,
    pub sender: Address,
    pub recipient: Address,
    pub token: Address,
    pub total_amount: i128,
    pub balance: i128,
    pub withdrawn_amount: i128,
    pub start_time: u64,
    pub end_time: u64,
    pub status: StreamStatus,
    pub paused_at: Option<u64>,
    pub total_paused_duration: u64,
}

/// Activity counters kept for each stream.
#[derive(Clone, Copy, Debug, PartialEq, Eq)]
pub struct StreamMetrics {
    pub last_activity: u64,
    pub total_withdrawn: i128,
    pub withdrawal_count: u32,
    pub pause_count: u32,
    pub total_delegations: u32,
    pub current_delegate: Option<Address>,
    pub last_delegation_time: u64,
}

/// Counters over all streams of one contract.
#[derive(Clone, Copy, Debug, PartialEq, Eq)]
pub struct ProtocolMetrics {
    pub total_active_streams: u64,
    pub total_tokens_streamed: i128,
    pub total_streams_created: u64,
    pub total_delegations: u64,
}

/// A pending request by one party to end a stream by mutual consent.
#[derive(Clone, Copy, Debug, PartialEq, Eq)]
pub struct CancelRequest {
    pub stream_id: u64,
    pub requester: Address,
    pub created_at: u64,
}

/// Whether a registered delegate withdraws beside the recipient or instead of it.
#[derive(Clone, Copy, Debug, PartialEq, Eq, Structural)]
pub enum DelegatePolicy {
    /// The recipient keeps its withdrawal right while a delegate is registered.
    Additive,
    /// While a delegate is registered, only the delegate may withdraw.
    Exclusive,
}

#[derive(Clone, Copy, Debug, PartialEq, Eq)]
pub struct FeeCollectedEvent {
    pub stream_id: u64,
    pub amount: i128,
}

#[derive(Clone, Copy, Debug, PartialEq, Eq)]
pub struct StreamDepositEvent {
    pub stream_id: u64,
    pub amount: i128,
}

#[derive(Clone, Copy, Debug, PartialEq, Eq)]
pub struct DelegationGrantedEvent {
    pub stream_id: u64,
    pub recipient: Address,
    pub delegate: Address,
}

#[derive(Clone, Copy, Debug, PartialEq, Eq)]
pub struct DelegationRevokedEvent {
    pub stream_id: u64,
    pub recipient: Address,
}

#[derive(Clone, Copy, Debug, PartialEq, Eq)]
pub struct StreamPausedEvent {
    pub stream_id: u64,
    pub paused_at: u64,
}

#[derive(Clone, Copy, Debug, PartialEq, Eq)]
pub struct StreamResumedEvent {
    pub stream_id: u64,
    pub resumed_at: u64,
    pub paused_duration: u64,
}

/// What an operation announces to the event sink.
#[derive(Clone, Copy, Debug, PartialEq, Eq)]
pub enum Event {
    FeeCollected(FeeCollectedEvent),
    StreamDeposit(StreamDepositEvent),
    DelegationGranted(DelegationGrantedEvent),
    DelegationRevoked(DelegationRevokedEvent),
    StreamPaused(StreamPausedEvent),
    StreamResumed(StreamResumedEvent),
}

/// A token movement that the host must carry out for an operation to take effect.
#[derive(Clone, Copy, Debug, PartialEq, Eq)]
pub struct Transfer {
    pub token: Address,
    pub from: Address,
    pub to: Address,
    pub amount: i128,
}

/// The side effects of a successful operation, in the order they are to be performed.
#[derive(Clone, Debug, PartialEq, Eq)]
pub struct Outcome {
    pub transfers: Vec<Transfer>,
    pub events: Vec<Event>,
}

/// The amounts paid out when a stream ends by mutual consent.
#[derive(Clone, Debug, PartialEq, Eq)]
pub struct Settlement {
    pub recipient_payout: i128,
    pub sender_refund: i128,
    pub outcome: Outcome,
}

#[derive(Clone, Copy, Debug, PartialEq, Eq, Structural)]
pub enum Error {
    AlreadyInitialized,
    NotInitialized,
    Unauthorized,
    InvalidAmount,
    InvalidTimeRange,
    StreamNotFound,
    StreamNotActive,
    StreamNotPaused,
    StreamCannotBeCanceled,
    InsufficientWithdrawable,
    TransferFailed,
    FeeTooHigh,
    InvalidRecipient,
    DepositExceedsTotal,
    ArithmeticOverflow,
    InvalidDelegate,
    /// A cancellation request is already pending on the stream.
    CancelRequestExists,
    /// No cancellation request is pending on the stream.
    CancelRequestNotFound,
}

} // verus!
