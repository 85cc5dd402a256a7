//! An orchestrator that locks a non-fungible token into custody and hands out
//! a fungible supply standing for shares of it; whoever gathers the whole
//! supply again may redeem it for the token.
//!
//! The orchestrator itself only keeps records and decides: the fungible and
//! non-fungible token contracts do the transfers, minting and burning, reached
//! through one-way instructions that the host runtime delivers. Every handler
//! here is a pure step from the stored state and a request to the next state
//! and the instructions to send out.

pub mod codec;
pub mod contract;
pub mod error;
pub mod laws;
pub mod msg;
pub mod state;

pub use error::ContractError;
