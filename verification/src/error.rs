//! The error taxonomy of the relay and swap engine.
//!
//! Recoverable local conditions (socket churn, unparsable frames) are
//! absorbed inside the broker and controller and never surfaced; operations
//! visible to a caller return one of these typed failures.

use vstd::prelude::*;

verus! {

/// A typed failure of a relay or swap operation.
#[derive(Clone, Debug, PartialEq, Eq, Structural)]
pub enum ErrorKind {
    /// A network or transport fault; drives reconnect backoff, never fatal.
    TransportError,
    /// A frame that could not be parsed; logged and dropped, the
    /// connection stays open.
    ProtocolError,
    /// A decryption or signature failure; the message is discarded.
    CryptoError,
    /// A publish was requested while no socket is open.
    ClosedChannel,
    /// The transport rejected an outbound frame.
    SendFailure,
    /// The wallet backend is not connected.
    NoBackend,
    /// The wallet holds no seed; the operation aborts before any side
    /// effect.
    NoSeed,
    /// No swap implementation is registered for the requested currency.
    ApiNotFound,
    /// No keychain is installed in the swap multiplexer.
    MissingKeychain,
    /// Coin selection fell short of the needed amount, in base units.
    NotEnoughFunds { available: u64, needed: u64 },
    /// A looked-up record does not exist.
    NotFound,
    /// An inbound swap offer carries the id of a swap that already exists.
    SwapExists,
    /// No listener is registered for the requested interface.
    NoListener,
    /// The storage layer reported a failure; no partial state remains.
    StorageError,
    /// The swap action loop exceeded its step bound without reaching a
    /// waiting action.
    LoopBudgetExhausted,
    /// The outbound message for the current swap state could not be built.
    MessageBuildFailure,
    /// A per-currency swap implementation reported a failure.
    SwapApiError,
    /// The redeemed coin of a completed buy could not be found.
    NoRedeemOutput,
    /// A string is not a well-formed address.
    AddressParseError,
    /// The requested operation is not offered on this channel.
    UnsupportedChannel,
}

impl ErrorKind {
    /// A short human-readable description of the failure.
    pub fn description(&self) -> (r: &'static str)
        ensures r@.len() > 0,
    {
        let r = match self {
            ErrorKind::TransportError => "transport failure",
            ErrorKind::ProtocolError => "could not parse frame",
            ErrorKind::CryptoError => "decryption or signature failure",
            ErrorKind::ClosedChannel => "channel is closed",
            ErrorKind::SendFailure => "failed sending message to relay",
            ErrorKind::NoBackend => "wallet backend not connected",
            ErrorKind::NoSeed => "wallet has no seed",
            ErrorKind::ApiNotFound => "API not found",
            ErrorKind::MissingKeychain => "no keychain installed",
            ErrorKind::NotEnoughFunds { available: _, needed: _ } => "not enough funds",
            ErrorKind::NotFound => "record not found",
            ErrorKind::SwapExists => "swap already exists",
            ErrorKind::NoListener => "no listener registered",
            ErrorKind::StorageError => "storage failure",
            ErrorKind::LoopBudgetExhausted => "swap action loop exceeded its step bound",
            ErrorKind::MessageBuildFailure => "could not build swap message",
            ErrorKind::SwapApiError => "swap implementation failure",
            ErrorKind::NoRedeemOutput => "unable to find redeem output",
            ErrorKind::AddressParseError => "could not parse address",
            ErrorKind::UnsupportedChannel => "not offered on this channel",
        };
        proof {
            reveal_strlit("transport failure");
            reveal_strlit("could not parse frame");
            reveal_strlit("decryption or signature failure");
            reveal_strlit("channel is closed");
            reveal_strlit("failed sending message to relay");
            reveal_strlit("wallet backend not connected");
            reveal_strlit("wallet has no seed");
            reveal_strlit("API not found");
            reveal_strlit("no keychain installed");
            reveal_strlit("not enough funds");
            reveal_strlit("record not found");
            reveal_strlit("swap already exists");
            reveal_strlit("no listener registered");
            reveal_strlit("storage failure");
            reveal_strlit("swap action loop exceeded its step bound");
            reveal_strlit("could not build swap message");
            reveal_strlit("swap implementation failure");
            reveal_strlit("unable to find redeem output");
            reveal_strlit("could not parse address");
            reveal_strlit("not offered on this channel");
        }
        r
    }
}

/// Why a broker subscription loop ended.
#[derive(Clone, Debug, PartialEq, Eq, Structural)]
pub enum CloseReason {
    /// The loop ended because `stop()` was called.
    Normal,
    /// The loop ended on a transport fault while not stopped.
    Abnormal(ErrorKind),
}

} // verus!
