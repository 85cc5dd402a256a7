//! The reasons a request can be rejected. A rejected request leaves the
//! state untouched and sends no instructions.

use vstd::prelude::*;

verus! {

/// Why a request was refused.
#[derive(Debug, Clone, Copy, PartialEq, Eq, Structural)]
pub enum ContractError {
    /// The caller fails a custody check, or an embedded notification does not
    /// carry the request this entry point accepts.
    Unauthorized,
    /// The pair is already fractionalized, or its creation is still awaiting
    /// its completion callback.
    Exists,
    /// Redemption names a fungible-token address with no active record.
    NotFractionalized,
    /// A lookup names a pair with no active record.
    NotFound,
    /// The redeemed amount does not equal the token's outstanding supply.
    InsufficientFunds,
    /// The completion callback carried no usable payload, or arrived with no
    /// creation pending: a host-level fault, fatal for the transaction.
    ProtocolViolation,
}

impl ContractError {
    /// A short description, for callers that report the rejection.
    pub fn describe(&self) -> (r: &'static str)
        ensures
            r@.len() > 0,
    {
        proof {
            reveal_strlit("unauthorized");
            reveal_strlit("already fractionalized");
            reveal_strlit("not fractionalized");
            reveal_strlit("not found");
            reveal_strlit("insufficient funds");
            reveal_strlit("protocol violation");
        }
        match self {
            ContractError::Unauthorized => "unauthorized",
            ContractError::Exists => "already fractionalized",
            ContractError::NotFractionalized => "not fractionalized",
            ContractError::NotFound => "not found",
            ContractError::InsufficientFunds => "insufficient funds",
            ContractError::ProtocolViolation => "protocol violation",
        }
    }
}

} // verus!
