use vstd::prelude::*;
use crate::state::{Coin, CoinV};

verus! {

/// The failures an operation can report. Every error aborts the whole
/// operation; no state is changed when one is returned.
#[derive(Debug, PartialEq)]
pub enum ContractError {
    /// The caller lacks the capability the operation demands.
    Unauthorized { sender: String },
    /// The threshold invariant would be violated.
    InvalidThreshold { threshold: u8 },
    /// The transaction is not in a signable state.
    InvalidStatus { tx_id: u16 },
    /// The recipient is not whitelisted while whitelisting is enabled.
    NotAllowedRecipient { recipient: String },
    /// The amount exceeds the ceiling configured for its denomination.
    NotAllowedAmount { amount: Coin },
    /// No transaction with this id exists.
    NotFound { tx_id: u16 },
}

/// Spec-level image of a [`ContractError`].
#[verifier::ext_equal]
pub ghost enum ContractErrorV {
    Unauthorized { sender: Seq<char> },
    InvalidThreshold { threshold: u8 },
    InvalidStatus { tx_id: u16 },
    NotAllowedRecipient { recipient: Seq<char> },
    NotAllowedAmount { amount: CoinV },
    NotFound { tx_id: u16 },
}

impl View for ContractError {
    type V = ContractErrorV;

    open spec fn view(&self) -> ContractErrorV {
        match self {
            ContractError::Unauthorized { sender } => ContractErrorV::Unauthorized {
                sender: sender@,
            },
            ContractError::InvalidThreshold { threshold } => ContractErrorV::InvalidThreshold {
                threshold: *threshold,
            },
            ContractError::InvalidStatus { tx_id } => ContractErrorV::InvalidStatus {
                tx_id: *tx_id,
            },
            ContractError::NotAllowedRecipient { recipient } => ContractErrorV::NotAllowedRecipient {
                recipient: recipient@,
            },
            ContractError::NotAllowedAmount { amount } => ContractErrorV::NotAllowedAmount {
                amount: amount@,
            },
            ContractError::NotFound { tx_id } => ContractErrorV::NotFound { tx_id: *tx_id },
        }
    }
}

} // verus!
