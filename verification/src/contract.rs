//! The entry points of the orchestrator.
//!
//! Each handler is a step of the per-pair state machine: no record and not
//! pending, then pending after a fractionalize request, then recorded once
//! the creation callback commits, then gone again once the whole supply is
//! redeemed. A rejected request leaves the state exactly as it was and
//! sends no instructions; an accepted one takes exactly the transition its
//! contract names and hands back the instructions for the host to deliver.

use vstd::prelude::*;

use crate::codec::decode_instantiate_address;
use crate::codec::spec_decode_address;
use crate::error::ContractError;
use crate::msg::ActionModel;
use crate::msg::Action;
use crate::msg::CoinModel;
use crate::msg::Cw20Coin;
use crate::msg::ExecuteMsg;
use crate::msg::GetCw20AddressResponse;
use crate::msg::InstantiateMsg;
use crate::msg::QueryMsg;
use crate::msg::ReceiveMsg;
use crate::msg::Response;
use crate::state::after_commit;
use crate::state::after_fractionalize;
use crate::state::after_redeem;
use crate::state::can_commit;
use crate::state::can_fractionalize;
use crate::state::can_redeem;
use crate::state::reverse_lookup;
use crate::state::Config;
use crate::state::State;
use crate::state::StateModel;
use crate::state::TokenKey;

verus! {

/// Every fungible supply is created with this many decimals.
pub const FUNGIBLE_DECIMALS: u8 = 6;

/// What a fractionalize request leaves behind: accepted exactly when the
/// pair is neither recorded nor the one pending, in which case the pending
/// slot now holds it and one creation instruction goes out, carrying the
/// requested distribution untouched; refused with `Exists` otherwise, the
/// state unchanged.
pub open spec fn fractionalize_post(
    pre: StateModel,
    post: StateModel,
    key: TokenKey,
    owners: Seq<CoinModel>,
    name: Seq<char>,
    symbol: Seq<char>,
    r: Result<Response, ContractError>,
) -> bool {
    &&& (r is Ok <==> can_fractionalize(pre, key))
    &&& (r is Ok ==> post == after_fractionalize(pre, key) && r->Ok_0@ == seq![
        ActionModel::InstantiateFungibleToken {
            name,
            symbol,
            decimals: FUNGIBLE_DECIMALS,
            initial_balances: owners,
            request_reply: true,
        },
    ])
    &&& (r is Err ==> post == pre && r->Err_0 == ContractError::Exists)
}

/// What a redemption leaves behind: accepted exactly when the address has
/// an active record and the amount equals the whole outstanding supply, in
/// which case the record is gone and the transfer and burn instructions go
/// out; refused otherwise with the reason, the state unchanged.
pub open spec fn unfractionalize_post(
    pre: StateModel,
    post: StateModel,
    cw20_address: Seq<char>,
    recipient: Seq<char>,
    amount: u128,
    total_supply: u128,
    r: Result<Response, ContractError>,
) -> bool {
    &&& (r is Ok <==> can_redeem(pre, cw20_address, amount, total_supply))
    &&& (r is Ok ==> post == after_redeem(pre, cw20_address) && r->Ok_0@ == seq![
        ActionModel::TransferNonFungible {
            collection: (reverse_lookup(pre.records, cw20_address)->0).0,
            recipient,
            token_id: (reverse_lookup(pre.records, cw20_address)->0).1,
        },
        ActionModel::BurnFungible { token_contract: cw20_address, amount: total_supply },
    ])
    &&& (r is Err ==> post == pre && r->Err_0 == (if reverse_lookup(pre.records, cw20_address)
        is None {
        ContractError::NotFractionalized
    } else {
        ContractError::InsufficientFunds
    }))
}

/// What the completion callback leaves behind: accepted exactly when the
/// payload decodes to an address, a creation is pending, and the address
/// collides with no record, in which case the pending pair is committed
/// and the slot consumed; refused as a protocol violation otherwise, the
/// state unchanged.
pub open spec fn reply_post(
    pre: StateModel,
    post: StateModel,
    data: Seq<u8>,
    r: Result<Response, ContractError>,
) -> bool {
    &&& (r is Ok <==> spec_decode_address(data) is Some && can_commit(
        pre,
        spec_decode_address(data)->0,
    ))
    &&& (r is Ok ==> post == after_commit(pre, spec_decode_address(data)->0) && r->Ok_0@
        == Seq::<ActionModel>::empty())
    &&& (r is Err ==> post == pre && r->Err_0 == ContractError::ProtocolViolation)
}

/// What a lookup answers: the recorded address, or `NotFound`.
pub open spec fn query_post(
    s: StateModel,
    key: TokenKey,
    r: Result<GetCw20AddressResponse, ContractError>,
) -> bool {
    &&& (r is Ok <==> s.records.contains_key(key))
    &&& (r is Ok ==> r->Ok_0.address@ == s.records[key])
    &&& (r is Err ==> r->Err_0 == ContractError::NotFound)
}

/// One-time setup: an empty state, with the version bookkeeping written
/// once and never changed again.
pub fn instantiate(_msg: InstantiateMsg) -> (r: State)
    ensures
        r.wf(),
        r@.records == Map::<TokenKey, Seq<char>>::empty(),
        r@.pending is None,
        r.contract_name@ == "crates.io:cw-fractionalize"@,
        r.contract_version@ == "0.1.0"@,
{
    State {
        contract_name: "crates.io:cw-fractionalize".to_owned(),
        contract_version: "0.1.0".to_owned(),
        records: Vec::new(),
        pending: None,
    }
}

/// Lock a (collection, token) pair: stash it as pending and instruct the
/// host to instantiate its fungible-token contract, asking for the
/// completion callback.
pub fn fractionalize(
    state: &mut State,
    collection: String,
    token_id: String,
    initial_balances: Vec<Cw20Coin>,
    name: String,
    symbol: String,
) -> (r: Result<Response, ContractError>)
    requires
        old(state).wf(),
    ensures
        final(state).wf(),
        fractionalize_post(
            old(state)@,
            final(state)@,
            (collection@, token_id@),
            initial_balances@.map_values(|c: Cw20Coin| c@),
            name@,
            symbol@,
            r,
        ),
        final(state).contract_name == old(state).contract_name,
        final(state).contract_version == old(state).contract_version,
{
    if state.contains(&collection, &token_id) {
        return Err(ContractError::Exists);
    }
    match &state.pending {
        Some(cfg) => {
            if cfg.last_nft_fractionalized.0 == collection && cfg.last_nft_fractionalized.1
                == token_id {
                return Err(ContractError::Exists);
            }
        },
        None => {},
    }
    let ghost owners = initial_balances@.map_values(|c: Cw20Coin| c@);
    let ghost name_view = name@;
    let ghost symbol_view = symbol@;
    state.pending = Some(Config { last_nft_fractionalized: (collection, token_id) });
    let action = Action::InstantiateFungibleToken {
        name,
        symbol,
        decimals: FUNGIBLE_DECIMALS,
        initial_balances,
        request_reply: true,
    };
    let mut messages: Vec<Action> = Vec::new();
    messages.push(action);
    let resp = Response { messages };
    proof {
        assert(resp@ =~= seq![
            ActionModel::InstantiateFungibleToken {
                name: name_view,
                symbol: symbol_view,
                decimals: FUNGIBLE_DECIMALS,
                initial_balances: owners,
                request_reply: true,
            },
        ]);
    }
    Ok(resp)
}

/// Dispatch a received-token notification from a non-fungible-token
/// contract: `sender` is that collection contract, so the token named is
/// already in custody here. Any embedded request other than a
/// fractionalization is refused.
pub fn handle_fractionalize(
    state: &mut State,
    sender: String,
    token_id: String,
    msg: ReceiveMsg,
) -> (r: Result<Response, ContractError>)
    requires
        old(state).wf(),
    ensures
        final(state).wf(),
        match msg {
            ReceiveMsg::Fractionalize { owners, name, symbol } => fractionalize_post(
                old(state)@,
                final(state)@,
                (sender@, token_id@),
                owners@.map_values(|c: Cw20Coin| c@),
                name@,
                symbol@,
                r,
            ),
            ReceiveMsg::Unfractionalize { .. } => r is Err && r->Err_0
                == ContractError::Unauthorized && final(state)@ == old(state)@,
        },
        final(state).contract_name == old(state).contract_name,
        final(state).contract_version == old(state).contract_version,
{
    match msg {
        ReceiveMsg::Fractionalize { owners, name, symbol } => {
            fractionalize(state, sender, token_id, owners, name, symbol)
        },
        ReceiveMsg::Unfractionalize { .. } => Err(ContractError::Unauthorized),
    }
}

/// Redeem the whole fungible supply for the locked token: delete the
/// record, then instruct the collection to hand the token to `recipient`
/// and the fungible-token contract to burn what was redeemed.
///
/// `total_supply` is the token's current outstanding supply as the host
/// reports it at this invocation; the caller queries the token contract
/// named by `cw20_address` for it.
pub fn unfractionalize(
    state: &mut State,
    cw20_address: String,
    recipient: String,
    amount: u128,
    total_supply: u128,
) -> (r: Result<Response, ContractError>)
    requires
        old(state).wf(),
    ensures
        final(state).wf(),
        unfractionalize_post(
            old(state)@,
            final(state)@,
            cw20_address@,
            recipient@,
            amount,
            total_supply,
            r,
        ),
        final(state).contract_name == old(state).contract_name,
        final(state).contract_version == old(state).contract_version,
{
    if !state.reverse_contains(&cw20_address) {
        return Err(ContractError::NotFractionalized);
    }
    if amount != total_supply {
        return Err(ContractError::InsufficientFunds);
    }
    let ghost addr_view = cw20_address@;
    let ghost recipient_view = recipient@;
    let (collection, token_id) = state.remove_by_address(&cw20_address);
    let mut messages: Vec<Action> = Vec::new();
    messages.push(Action::TransferNonFungible { collection, recipient, token_id });
    messages.push(Action::BurnFungible { token_contract: cw20_address, amount: total_supply });
    let resp = Response { messages };
    proof {
        assert(resp@ =~= seq![
            ActionModel::TransferNonFungible {
                collection: (reverse_lookup(old(state)@.records, addr_view)->0).0,
                recipient: recipient_view,
                token_id: (reverse_lookup(old(state)@.records, addr_view)->0).1,
            },
            ActionModel::BurnFungible { token_contract: addr_view, amount: total_supply },
        ]);
    }
    Ok(resp)
}

/// Dispatch a received-token notification from a fungible-token contract:
/// `sender` is that token contract, and `amount` is what was sent here for
/// redemption. Any embedded request other than an unfractionalization is
/// refused.
pub fn handle_unfractionalize(
    state: &mut State,
    sender: String,
    amount: u128,
    msg: ReceiveMsg,
    total_supply: u128,
) -> (r: Result<Response, ContractError>)
    requires
        old(state).wf(),
    ensures
        final(state).wf(),
        match msg {
            ReceiveMsg::Unfractionalize { recipient } => unfractionalize_post(
                old(state)@,
                final(state)@,
                sender@,
                recipient@,
                amount,
                total_supply,
                r,
            ),
            ReceiveMsg::Fractionalize { .. } => r is Err && r->Err_0
                == ContractError::Unauthorized && final(state)@ == old(state)@,
        },
        final(state).contract_name == old(state).contract_name,
        final(state).contract_version == old(state).contract_version,
{
    match msg {
        ReceiveMsg::Unfractionalize { recipient } => {
            unfractionalize(state, sender, recipient, amount, total_supply)
        },
        ReceiveMsg::Fractionalize { .. } => Err(ContractError::Unauthorized),
    }
}

/// The state-changing entry point: dispatch on the notification once.
///
/// `token_total_supply` is the sending fungible-token contract's current
/// outstanding supply, queried by the caller; it is read only on the
/// fungible-receive path.
pub fn execute(
    state: &mut State,
    sender: String,
    msg: ExecuteMsg,
    token_total_supply: u128,
) -> (r: Result<Response, ContractError>)
    requires
        old(state).wf(),
    ensures
        final(state).wf(),
        match msg {
            ExecuteMsg::Receive { sender: _, amount, msg: inner } => match inner {
                ReceiveMsg::Unfractionalize { recipient } => unfractionalize_post(
                    old(state)@,
                    final(state)@,
                    sender@,
                    recipient@,
                    amount,
                    token_total_supply,
                    r,
                ),
                ReceiveMsg::Fractionalize { .. } => r is Err && r->Err_0
                    == ContractError::Unauthorized && final(state)@ == old(state)@,
            },
            ExecuteMsg::ReceiveNft { sender: _, token_id, msg: inner } => match inner {
                ReceiveMsg::Fractionalize { owners, name, symbol } => fractionalize_post(
                    old(state)@,
                    final(state)@,
                    (sender@, token_id@),
                    owners@.map_values(|c: Cw20Coin| c@),
                    name@,
                    symbol@,
                    r,
                ),
                ReceiveMsg::Unfractionalize { .. } => r is Err && r->Err_0
                    == ContractError::Unauthorized && final(state)@ == old(state)@,
            },
        },
        final(state).contract_name == old(state).contract_name,
        final(state).contract_version == old(state).contract_version,
{
    match msg {
        ExecuteMsg::Receive { sender: _user, amount, msg: inner } => {
            handle_unfractionalize(state, sender, amount, inner, token_total_supply)
        },
        ExecuteMsg::ReceiveNft { sender: _owner, token_id, msg: inner } => {
            handle_fractionalize(state, sender, token_id, inner)
        },
    }
}

/// The completion callback: commit the pending pair to the address the
/// acknowledgement payload reports, and consume the pending slot.
pub fn reply(state: &mut State, data: &[u8]) -> (r: Result<Response, ContractError>)
    requires
        old(state).wf(),
    ensures
        final(state).wf(),
        reply_post(old(state)@, final(state)@, data@, r),
        final(state).contract_name == old(state).contract_name,
        final(state).contract_version == old(state).contract_version,
{
    let address = match decode_instantiate_address(data) {
        Some(a) => a,
        None => {
            return Err(ContractError::ProtocolViolation);
        },
    };
    let (collection, token_id) = match &state.pending {
        Some(cfg) => (
            cfg.last_nft_fractionalized.0.clone(),
            cfg.last_nft_fractionalized.1.clone(),
        ),
        None => {
            return Err(ContractError::ProtocolViolation);
        },
    };
    // the host must not report a pair twice, nor reuse an address; a state
    // that did either would no longer answer lookups single-valuedly
    if state.contains(&collection, &token_id) {
        return Err(ContractError::ProtocolViolation);
    }
    if state.reverse_contains(&address) {
        return Err(ContractError::ProtocolViolation);
    }
    state.pending = None;
    state.insert_record(collection, token_id, address);
    let resp = Response { messages: Vec::new() };
    proof {
        assert(resp@ =~= Seq::<ActionModel>::empty());
    }
    Ok(resp)
}

/// Resolve a (collection, token) pair to its fungible-token address.
pub fn get_cw20_address(state: &State, address: String, token_id: String) -> (r: Result<
    GetCw20AddressResponse,
    ContractError,
>)
    requires
        state.wf(),
    ensures
        query_post(state@, (address@, token_id@), r),
{
    match state.resolve_address(&address, &token_id) {
        Some(a) => Ok(GetCw20AddressResponse { address: a }),
        None => Err(ContractError::NotFound),
    }
}

/// The read-only entry point.
pub fn query(state: &State, msg: QueryMsg) -> (r: Result<GetCw20AddressResponse, ContractError>)
    requires
        state.wf(),
    ensures
        match msg {
            QueryMsg::GetCw20Address { address, token_id } => query_post(
                state@,
                (address@, token_id@),
                r,
            ),
        },
{
    match msg {
        QueryMsg::GetCw20Address { address, token_id } => get_cw20_address(
            state,
            address,
            token_id,
        ),
    }
}

} // verus!
