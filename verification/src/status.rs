//! The closed vocabularies of the exchange core: trade lifecycle states,
//! ledger transaction types and states, offer kinds, commitment-side states
//! and participant roles.

use vstd::prelude::*;

verus! {

/// Lifecycle state of a trade.
///
/// Initial state is `Proposal`; `Completed` and `Cancelled` are terminal.
#[derive(Debug, Clone, Copy, PartialEq, Eq, Structural)]
pub enum TradeStatus {
    Proposal,
    Matched,
    Committed,
    Escrow,
    Completed,
    Cancelled,
}

impl TradeStatus {
    /// Whether no further transition may leave this state.
    pub open spec fn spec_is_terminal(self) -> bool {
        self == TradeStatus::Completed || self == TradeStatus::Cancelled
    }

    #[verifier::when_used_as_spec(spec_is_terminal)]
    pub fn is_terminal(self) -> (r: bool)
        ensures
            r == self.spec_is_terminal(),
    {
        match self {
            TradeStatus::Completed => true,
            TradeStatus::Cancelled => true,
            _ => false,
        }
    }
}

/// What is exchanged: two items, an item against crypto, or a mix.
#[derive(Debug, Clone, Copy, PartialEq, Eq, Structural)]
pub enum TradeType {
    ItemForItem,
    ItemForXch,
    Mixed,
}

/// The kind of counter-offer an acceptor makes; it determines the trade type.
#[derive(Debug, Clone, Copy, PartialEq, Eq, Structural)]
pub enum OfferType {
    Item,
    Xch,
    Mixed,
}

impl OfferType {
    /// The trade type a trade takes when accepted with this kind of offer.
    pub open spec fn spec_trade_type(self) -> TradeType {
        match self {
            OfferType::Xch => TradeType::ItemForXch,
            OfferType::Mixed => TradeType::Mixed,
            OfferType::Item => TradeType::ItemForItem,
        }
    }

    #[verifier::when_used_as_spec(spec_trade_type)]
    pub fn trade_type(self) -> (r: TradeType)
        ensures
            r == self.spec_trade_type(),
    {
        match self {
            OfferType::Xch => TradeType::ItemForXch,
            OfferType::Mixed => TradeType::Mixed,
            OfferType::Item => TradeType::ItemForItem,
        }
    }
}

/// One side's progress towards paying its commitment fee.
#[derive(Debug, Clone, Copy, PartialEq, Eq, Structural)]
pub enum CommitStatus {
    Pending,
    Committed,
}

/// Which side of a trade a participant stands on.
#[derive(Debug, Clone, Copy, PartialEq, Eq, Structural)]
pub enum Role {
    Proposer,
    Acceptor,
}

/// Purpose of a ledger transaction.
#[derive(Debug, Clone, Copy, PartialEq, Eq, Structural)]
pub enum TxType {
    CommitmentFee,
    EscrowDeposit,
    EscrowRelease,
    Refund,
}

/// State of a ledger transaction.
///
/// Initial state is `Pending`; `Confirmed`, `Failed` and `Refunded` are
/// terminal, `Pending` and `Mempool` are the active (non-terminal) states.
#[derive(Debug, Clone, Copy, PartialEq, Eq, Structural)]
pub enum TxStatus {
    Pending,
    Mempool,
    Confirmed,
    Failed,
    Refunded,
}

impl TxStatus {
    /// Whether the transaction still occupies its (trade, user, type) slot.
    pub open spec fn spec_is_active(self) -> bool {
        self == TxStatus::Pending || self == TxStatus::Mempool
    }

    #[verifier::when_used_as_spec(spec_is_active)]
    pub fn is_active(self) -> (r: bool)
        ensures
            r == self.spec_is_active(),
    {
        match self {
            TxStatus::Pending => true,
            TxStatus::Mempool => true,
            _ => false,
        }
    }
}

} // verus!
