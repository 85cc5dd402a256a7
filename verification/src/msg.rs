//! The requests the orchestrator accepts, the read-only queries, and the
//! outbound instructions it hands back for the host to deliver.
//!
//! Inbound notifications arrive already dispatched into closed sum types:
//! the host shell decodes the wrapped payloads once at the boundary and
//! hands plain values in.

use vstd::prelude::*;

verus! {

/// One-time setup request. It carries nothing of consequence.
#[derive(Debug)]
pub struct InstantiateMsg {}

/// One share of an initial fungible distribution: who receives it, how much.
#[derive(Debug)]
pub struct Cw20Coin {
    pub address: String,
    pub amount: u128,
}

/// The mathematical value of a [`Cw20Coin`].
pub struct CoinModel {
    pub address: Seq<char>,
    pub amount: u128,
}

impl View for Cw20Coin {
    type V = CoinModel;

    open spec fn view(&self) -> CoinModel {
        CoinModel { address: self.address@, amount: self.amount }
    }
}

/// The request embedded in a received-token notification.
#[derive(Debug)]
pub enum ReceiveMsg {
    /// Lock the sent non-fungible token and create a fungible supply for it,
    /// distributed over `owners`.
    Fractionalize { owners: Vec<Cw20Coin>, name: String, symbol: String },
    /// Redeem the sent fungible amount for the locked non-fungible token,
    /// releasing it to `recipient`.
    Unfractionalize { recipient: String },
}

/// A state-changing request, one of the two received-token notifications.
#[derive(Debug)]
pub enum ExecuteMsg {
    /// A fungible-token contract reports that `sender` sent `amount` units
    /// here, with an embedded request.
    Receive { sender: String, amount: u128, msg: ReceiveMsg },
    /// A non-fungible-token contract reports that `sender` sent the token
    /// `token_id` here, with an embedded request.
    ReceiveNft { sender: String, token_id: String, msg: ReceiveMsg },
}

/// A read-only lookup.
#[derive(Debug)]
pub enum QueryMsg {
    /// Resolve a (collection, token) pair to its fungible-token address.
    GetCw20Address { address: String, token_id: String },
}

/// The answer to [`QueryMsg::GetCw20Address`].
#[derive(Debug)]
pub struct GetCw20AddressResponse {
    pub address: String,
}

/// An outbound instruction for one of the two delegated token contracts.
/// The orchestrator never performs these itself: the host delivers them
/// after the handler returns.
#[derive(Debug)]
pub enum Action {
    /// Instantiate a fungible-token contract with the given initial
    /// distribution, asking the host to report the new address back.
    InstantiateFungibleToken {
        name: String,
        symbol: String,
        decimals: u8,
        initial_balances: Vec<Cw20Coin>,
        request_reply: bool,
    },
    /// Tell the collection contract to hand the token to `recipient`.
    TransferNonFungible { collection: String, recipient: String, token_id: String },
    /// Tell the fungible-token contract to burn `amount` units held here.
    BurnFungible { token_contract: String, amount: u128 },
}

/// The mathematical value of an [`Action`].
pub enum ActionModel {
    InstantiateFungibleToken {
        name: Seq<char>,
        symbol: Seq<char>,
        decimals: u8,
        initial_balances: Seq<CoinModel>,
        request_reply: bool,
    },
    TransferNonFungible { collection: Seq<char>, recipient: Seq<char>, token_id: Seq<char> },
    BurnFungible { token_contract: Seq<char>, amount: u128 },
}

impl View for Action {
    type V = ActionModel;

    open spec fn view(&self) -> ActionModel {
        match self {
            Action::InstantiateFungibleToken {
                name,
                symbol,
                decimals,
                initial_balances,
                request_reply,
            } => ActionModel::InstantiateFungibleToken {
                name: name@,
                symbol: symbol@,
                decimals: *decimals,
                initial_balances: initial_balances@.map_values(|c: Cw20Coin| c@),
                request_reply: *request_reply,
            },
            Action::TransferNonFungible { collection, recipient, token_id } => {
                ActionModel::TransferNonFungible {
                    collection: collection@,
                    recipient: recipient@,
                    token_id: token_id@,
                }
            },
            Action::BurnFungible { token_contract, amount } => {
                ActionModel::BurnFungible { token_contract: token_contract@, amount: *amount }
            },
        }
    }
}

/// What a handler answers: the instructions for the host to send out.
/// A rejected request answers an error instead and sends nothing.
#[derive(Debug)]
pub struct Response {
    pub messages: Vec<Action>,
}

impl View for Response {
    type V = Seq<ActionModel>;

    open spec fn view(&self) -> Seq<ActionModel> {
        self.messages@.map_values(|a: Action| a@)
    }
}

} // verus!
