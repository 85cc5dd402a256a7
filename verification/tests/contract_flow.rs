//! End-to-end flows: the orchestrator's handlers drive a small simulated
//! chain — an owner ledger for the non-fungible token and a balance ledger
//! per created fungible token — that carries out the instructions the
//! handlers emit, the way the host and the two delegated contracts would.

use cw_fractionalize::codec::encode_instantiate_response;
use cw_fractionalize::contract::execute;
use cw_fractionalize::contract::instantiate;
use cw_fractionalize::contract::query;
use cw_fractionalize::contract::reply;
use cw_fractionalize::error::ContractError;
use cw_fractionalize::msg::Action;
use cw_fractionalize::msg::Cw20Coin;
use cw_fractionalize::msg::ExecuteMsg;
use cw_fractionalize::msg::InstantiateMsg;
use cw_fractionalize::msg::QueryMsg;
use cw_fractionalize::msg::ReceiveMsg;
use cw_fractionalize::msg::Response;
use cw_fractionalize::state::State;

const FRACTIONALIZER: &str = "fractionalizer";

/// Where a redemption attempt failed: at the token contract refusing the
/// send, or at the orchestrator rejecting the request.
#[derive(Debug, PartialEq)]
enum TxError {
    Send,
    Contract(ContractError),
}

struct Token {
    address: String,
    balances: Vec<(String, u128)>,
    supply: u128,
}

struct World {
    state: State,
    /// (collection, token_id, owner)
    nfts: Vec<(String, String, String)>,
    /// (collection, token_id, spender)
    approvals: Vec<(String, String, String)>,
    tokens: Vec<Token>,
    deployer_address: String,
    user_one: String,
    user_two: String,
    nft_address: String,
    fractionalizer_address: String,
}

fn setup() -> World {
    World {
        state: instantiate(InstantiateMsg {}),
        nfts: Vec::new(),
        approvals: Vec::new(),
        tokens: Vec::new(),
        deployer_address: "deployer".to_string(),
        user_one: "user_one".to_string(),
        user_two: "user_two".to_string(),
        nft_address: "nft-contract".to_string(),
        fractionalizer_address: FRACTIONALIZER.to_string(),
    }
}

fn mint_nft(w: &mut World, _minter: &str, collection: &str, token_id: &str, user: &str) {
    w.nfts
        .push((collection.to_string(), token_id.to_string(), user.to_string()));
}

fn approve_nft(w: &mut World, _approver: &str, spender: &str, collection: &str, token_id: &str) {
    w.approvals
        .push((collection.to_string(), token_id.to_string(), spender.to_string()));
}

fn nft_owner_of(w: &World, collection: &str, token_id: &str) -> String {
    for (c, t, owner) in &w.nfts {
        if c == collection && t == token_id {
            return owner.clone();
        }
    }
    panic!("no such token");
}

fn set_nft_owner(w: &mut World, collection: &str, token_id: &str, owner: &str) {
    for entry in &mut w.nfts {
        if entry.0 == collection && entry.1 == token_id {
            entry.2 = owner.to_string();
            return;
        }
    }
    panic!("no such token");
}

fn token_balance(w: &World, token: &str, user: &str) -> u128 {
    for t in &w.tokens {
        if t.address == token {
            for (holder, amount) in &t.balances {
                if holder == user {
                    return *amount;
                }
            }
            return 0;
        }
    }
    panic!("no such token contract");
}

fn credit(token: &mut Token, user: &str, amount: u128) {
    for entry in &mut token.balances {
        if entry.0 == user {
            entry.1 += amount;
            return;
        }
    }
    token.balances.push((user.to_string(), amount));
}

fn debit(token: &mut Token, user: &str, amount: u128) {
    for entry in &mut token.balances {
        if entry.0 == user {
            assert!(entry.1 >= amount, "insufficient balance");
            entry.1 -= amount;
            return;
        }
    }
    panic!("insufficient balance");
}

fn token_transfer(w: &mut World, sender: &str, token: &str, amount: u128, recipient: &str) {
    for t in &mut w.tokens {
        if t.address == token {
            debit(t, sender, amount);
            credit(t, recipient, amount);
            return;
        }
    }
    panic!("no such token contract");
}

fn token_supply(w: &World, token: &str) -> u128 {
    for t in &w.tokens {
        if t.address == token {
            return t.supply;
        }
    }
    0
}

/// Carry out the instructions a handler emitted, as the host would: create
/// the fungible-token contract and deliver the completion callback, move
/// the non-fungible token, burn redeemed units held by the orchestrator.
fn apply_actions(w: &mut World, new_token_address: &str, resp: Response) {
    for action in resp.messages {
        match action {
            Action::InstantiateFungibleToken {
                initial_balances,
                request_reply,
                ..
            } => {
                let mut token = Token {
                    address: new_token_address.to_string(),
                    balances: Vec::new(),
                    supply: 0,
                };
                for coin in &initial_balances {
                    credit(&mut token, &coin.address, coin.amount);
                    token.supply += coin.amount;
                }
                w.tokens.push(token);
                if request_reply {
                    let payload = encode_instantiate_response(new_token_address);
                    reply(&mut w.state, payload.as_slice()).unwrap();
                }
            }
            Action::TransferNonFungible {
                collection,
                recipient,
                token_id,
            } => {
                set_nft_owner(w, &collection, &token_id, &recipient);
            }
            Action::BurnFungible {
                token_contract,
                amount,
            } => {
                for t in &mut w.tokens {
                    if t.address == token_contract {
                        debit(t, FRACTIONALIZER, amount);
                        t.supply -= amount;
                    }
                }
            }
        }
    }
}

/// The owner sends the token to the orchestrator with an embedded
/// fractionalize request, as the collection contract would report it.
fn fractionalize(
    w: &mut World,
    sender: &str,
    collection: &str,
    token_id: &str,
    owners: Vec<Cw20Coin>,
    new_token_address: &str,
) {
    assert_eq!(nft_owner_of(w, collection, token_id), sender);
    set_nft_owner(w, collection, token_id, FRACTIONALIZER);
    let msg = ExecuteMsg::ReceiveNft {
        sender: sender.to_string(),
        token_id: token_id.to_string(),
        msg: ReceiveMsg::Fractionalize {
            owners,
            name: "name".to_string(),
            symbol: "symbol".to_string(),
        },
    };
    let resp = execute(&mut w.state, collection.to_string(), msg, 0).unwrap();
    apply_actions(w, new_token_address, resp);
}

/// The holder sends units to the orchestrator with an embedded
/// unfractionalize request; the send and everything after it are undone
/// when the orchestrator rejects, as the host's atomic execution would.
fn unfractionalize(
    w: &mut World,
    sender: &str,
    token: &str,
    amount: u128,
) -> Result<(), TxError> {
    if token_balance(w, token, sender) < amount {
        return Err(TxError::Send);
    }
    let supply = token_supply(w, token);
    let msg = ExecuteMsg::Receive {
        sender: sender.to_string(),
        amount,
        msg: ReceiveMsg::Unfractionalize {
            recipient: sender.to_string(),
        },
    };
    let resp =
        execute(&mut w.state, token.to_string(), msg, supply).map_err(TxError::Contract)?;
    token_transfer(w, sender, token, amount, FRACTIONALIZER);
    apply_actions(w, "", resp);
    Ok(())
}

fn get_fractional_address(w: &World, collection: &str, token_id: &str) -> String {
    let msg = QueryMsg::GetCw20Address {
        address: collection.to_string(),
        token_id: token_id.to_string(),
    };
    query(&w.state, msg).unwrap().address
}

fn two_owner_distribution(w: &World) -> Vec<Cw20Coin> {
    vec![
        Cw20Coin {
            address: w.user_one.clone(),
            amount: 1,
        },
        Cw20Coin {
            address: w.user_two.clone(),
            amount: 2,
        },
    ]
}

#[test]
fn test_fractionalize() {
    let mut w = setup();
    let deployer = w.deployer_address.clone();
    let nft_address = w.nft_address.clone();
    let fractionalizer = w.fractionalizer_address.clone();
    let user_one = w.user_one.clone();
    let user_two = w.user_two.clone();

    // mint & approve NFT
    let token_id = "nft".to_string();
    mint_nft(&mut w, &deployer, &nft_address, &token_id, &deployer);
    approve_nft(&mut w, &deployer, &fractionalizer, &nft_address, &token_id);

    let owners = two_owner_distribution(&w);
    fractionalize(&mut w, &deployer, &nft_address, &token_id, owners, "cw20-contract");

    let cw20 = get_fractional_address(&w, &nft_address, &token_id);

    // assertions
    let owner_of = nft_owner_of(&w, &nft_address, &token_id);
    assert_eq!(owner_of, fractionalizer);

    let bal = token_balance(&w, &cw20, &user_one);
    assert_eq!(bal, 1u128);

    let bal = token_balance(&w, &cw20, &user_two);
    assert_eq!(bal, 2u128);
}

#[test]
fn test_unfractionalize() {
    let mut w = setup();
    let deployer = w.deployer_address.clone();
    let nft_address = w.nft_address.clone();
    let fractionalizer = w.fractionalizer_address.clone();
    let user_one = w.user_one.clone();
    let user_two = w.user_two.clone();

    // mint & approve NFT
    let token_id = "nft".to_string();
    mint_nft(&mut w, &deployer, &nft_address, &token_id, &deployer);
    approve_nft(&mut w, &deployer, &fractionalizer, &nft_address, &token_id);

    let owners = two_owner_distribution(&w);
    fractionalize(&mut w, &deployer, &nft_address, &token_id, owners, "cw20-contract");

    let cw20 = get_fractional_address(&w, &nft_address, &token_id);
    token_transfer(&mut w, &user_two, &cw20, 2, &user_one);

    let bal = token_balance(&w, &cw20, &user_one);
    assert_eq!(bal, 3u128);

    let err = unfractionalize(&mut w, &user_one, &cw20, 1).unwrap_err();
    assert_eq!(err, TxError::Contract(ContractError::InsufficientFunds));

    unfractionalize(&mut w, &user_one, &cw20, bal).unwrap();
    unfractionalize(&mut w, &user_one, &cw20, bal).unwrap_err();

    // assertions
    let owner_of = nft_owner_of(&w, &nft_address, "nft");
    assert_eq!(owner_of, user_one);

    let bal = token_balance(&w, &cw20, &user_one);
    assert_eq!(bal, 0u128);

    let bal = token_balance(&w, &cw20, &user_two);
    assert_eq!(bal, 0u128);

    let bal = token_balance(&w, &cw20, &fractionalizer);
    assert_eq!(bal, 0u128);
}

#[test]
fn contract_test_fractionalize() {
    let mut w = setup();
    let deployer = w.deployer_address.clone();
    let nft_address = w.nft_address.clone();
    let fractionalizer = w.fractionalizer_address.clone();
    let user_one = w.user_one.clone();
    let user_two = w.user_two.clone();

    let token_id = "nft".to_string();
    mint_nft(&mut w, &deployer, &nft_address, &token_id, &deployer);
    approve_nft(&mut w, &deployer, &fractionalizer, &nft_address, &token_id);

    let owners = two_owner_distribution(&w);
    fractionalize(&mut w, &deployer, &nft_address, &token_id, owners, "cw20-contract");

    let cw20 = get_fractional_address(&w, &nft_address, &token_id);

    let owner_of = nft_owner_of(&w, &nft_address, &token_id);
    assert_eq!(owner_of, fractionalizer);

    let bal = token_balance(&w, &cw20, &user_one);
    assert_eq!(bal, 1u128);

    let bal = token_balance(&w, &cw20, &user_two);
    assert_eq!(bal, 2u128);
}

#[test]
fn contract_test_unfractionalize() {
    let mut w = setup();
    let deployer = w.deployer_address.clone();
    let nft_address = w.nft_address.clone();
    let fractionalizer = w.fractionalizer_address.clone();
    let user_one = w.user_one.clone();
    let user_two = w.user_two.clone();

    let token_id = "nft".to_string();
    mint_nft(&mut w, &deployer, &nft_address, &token_id, &deployer);
    approve_nft(&mut w, &deployer, &fractionalizer, &nft_address, &token_id);

    let owners = two_owner_distribution(&w);
    fractionalize(&mut w, &deployer, &nft_address, &token_id, owners, "cw20-contract");

    let cw20 = get_fractional_address(&w, &nft_address, &token_id);
    token_transfer(&mut w, &user_two, &cw20, 2, &user_one);

    let bal = token_balance(&w, &cw20, &user_one);
    assert_eq!(bal, 3u128);

    let err = unfractionalize(&mut w, &user_one, &cw20, 1).unwrap_err();
    assert_eq!(err, TxError::Contract(ContractError::InsufficientFunds));

    unfractionalize(&mut w, &user_one, &cw20, bal).unwrap();
    unfractionalize(&mut w, &user_one, &cw20, bal).unwrap_err();

    let owner_of = nft_owner_of(&w, &nft_address, "nft");
    assert_eq!(owner_of, user_one);

    let bal = token_balance(&w, &cw20, &user_one);
    assert_eq!(bal, 0u128);

    let bal = token_balance(&w, &cw20, &user_two);
    assert_eq!(bal, 0u128);

    let bal = token_balance(&w, &cw20, &fractionalizer);
    assert_eq!(bal, 0u128);
}

#[test]
fn fractionalize_then_callback_records_address_and_distribution() {
    // after a fractionalization whose amounts sum to 3 and its completion
    // callback, the record answers with the reported address and the
    // created supply is 3, distributed exactly as requested
    let mut w = setup();
    mint_nft(&mut w, "deployer", "nft-contract", "nft", "deployer");
    let owners = two_owner_distribution(&w);
    fractionalize(&mut w, "deployer", "nft-contract", "nft", owners, "cw20-contract");

    assert_eq!(
        get_fractional_address(&w, "nft-contract", "nft"),
        "cw20-contract"
    );
    assert_eq!(token_supply(&w, "cw20-contract"), 3u128);
    assert_eq!(token_balance(&w, "cw20-contract", "user_one"), 1u128);
    assert_eq!(token_balance(&w, "cw20-contract", "user_two"), 2u128);
    assert_eq!(nft_owner_of(&w, "nft-contract", "nft"), "fractionalizer");
}

#[test]
fn second_fractionalize_rejected_while_pending() {
    // before the callback commits, the same pair is refused and nothing
    // changes
    let mut w = setup();
    let msg = ExecuteMsg::ReceiveNft {
        sender: "deployer".to_string(),
        token_id: "nft".to_string(),
        msg: ReceiveMsg::Fractionalize {
            owners: vec![Cw20Coin {
                address: "user_one".to_string(),
                amount: 1,
            }],
            name: "name".to_string(),
            symbol: "symbol".to_string(),
        },
    };
    execute(&mut w.state, "nft-contract".to_string(), msg, 0).unwrap();

    let again = ExecuteMsg::ReceiveNft {
        sender: "deployer".to_string(),
        token_id: "nft".to_string(),
        msg: ReceiveMsg::Fractionalize {
            owners: vec![Cw20Coin {
                address: "user_two".to_string(),
                amount: 5,
            }],
            name: "name".to_string(),
            symbol: "symbol".to_string(),
        },
    };
    let err = execute(&mut w.state, "nft-contract".to_string(), again, 0).unwrap_err();
    assert_eq!(err, ContractError::Exists);
}

#[test]
fn second_fractionalize_rejected_after_commit() {
    let mut w = setup();
    mint_nft(&mut w, "deployer", "nft-contract", "nft", "deployer");
    let owners = two_owner_distribution(&w);
    fractionalize(&mut w, "deployer", "nft-contract", "nft", owners, "cw20-contract");

    let again = ExecuteMsg::ReceiveNft {
        sender: "deployer".to_string(),
        token_id: "nft".to_string(),
        msg: ReceiveMsg::Fractionalize {
            owners: Vec::new(),
            name: "name".to_string(),
            symbol: "symbol".to_string(),
        },
    };
    let err = execute(&mut w.state, "nft-contract".to_string(), again, 0).unwrap_err();
    assert_eq!(err, ContractError::Exists);
    // the record is intact
    assert_eq!(
        get_fractional_address(&w, "nft-contract", "nft"),
        "cw20-contract"
    );
}

#[test]
fn round_trip_restores_the_start() {
    // fractionalize with (user_one, 1) and (user_two, 2), gather all 3
    // units in one hand, redeem: the record is gone, the redeemer owns the
    // token, the supply is 0
    let mut w = setup();
    mint_nft(&mut w, "deployer", "nft-contract", "nft", "deployer");
    let owners = two_owner_distribution(&w);
    fractionalize(&mut w, "deployer", "nft-contract", "nft", owners, "cw20-contract");

    token_transfer(&mut w, "user_two", "cw20-contract", 2, "user_one");
    unfractionalize(&mut w, "user_one", "cw20-contract", 3).unwrap();

    let msg = QueryMsg::GetCw20Address {
        address: "nft-contract".to_string(),
        token_id: "nft".to_string(),
    };
    assert_eq!(query(&w.state, msg).unwrap_err(), ContractError::NotFound);
    assert_eq!(nft_owner_of(&w, "nft-contract", "nft"), "user_one");
    assert_eq!(token_supply(&w, "cw20-contract"), 0u128);
}

#[test]
fn partial_redemption_rejected_and_record_intact() {
    let mut w = setup();
    mint_nft(&mut w, "deployer", "nft-contract", "nft", "deployer");
    let owners = two_owner_distribution(&w);
    fractionalize(&mut w, "deployer", "nft-contract", "nft", owners, "cw20-contract");

    let err = unfractionalize(&mut w, "user_two", "cw20-contract", 2).unwrap_err();
    assert_eq!(err, TxError::Contract(ContractError::InsufficientFunds));
    // nothing moved, nothing burnt, the record stands
    assert_eq!(
        get_fractional_address(&w, "nft-contract", "nft"),
        "cw20-contract"
    );
    assert_eq!(token_balance(&w, "cw20-contract", "user_two"), 2u128);
    assert_eq!(token_supply(&w, "cw20-contract"), 3u128);
    assert_eq!(nft_owner_of(&w, "nft-contract", "nft"), "fractionalizer");
}

#[test]
fn redemption_of_unknown_token_rejected() {
    let mut w = setup();
    let msg = ExecuteMsg::Receive {
        sender: "user_one".to_string(),
        amount: 3,
        msg: ReceiveMsg::Unfractionalize {
            recipient: "user_one".to_string(),
        },
    };
    let err = execute(&mut w.state, "cw20-contract".to_string(), msg, 3).unwrap_err();
    assert_eq!(err, ContractError::NotFractionalized);
}

#[test]
fn wrong_request_shapes_are_unauthorized() {
    let mut w = setup();
    // an unfractionalize request wrapped in a non-fungible notification
    let msg = ExecuteMsg::ReceiveNft {
        sender: "deployer".to_string(),
        token_id: "nft".to_string(),
        msg: ReceiveMsg::Unfractionalize {
            recipient: "deployer".to_string(),
        },
    };
    let err = execute(&mut w.state, "nft-contract".to_string(), msg, 0).unwrap_err();
    assert_eq!(err, ContractError::Unauthorized);

    // a fractionalize request wrapped in a fungible notification
    let msg = ExecuteMsg::Receive {
        sender: "user_one".to_string(),
        amount: 1,
        msg: ReceiveMsg::Fractionalize {
            owners: Vec::new(),
            name: "name".to_string(),
            symbol: "symbol".to_string(),
        },
    };
    let err = execute(&mut w.state, "cw20-contract".to_string(), msg, 1).unwrap_err();
    assert_eq!(err, ContractError::Unauthorized);
}

#[test]
fn callback_without_pending_creation_is_a_protocol_violation() {
    let mut w = setup();
    let payload = encode_instantiate_response("cw20-contract");
    let err = reply(&mut w.state, payload.as_slice()).unwrap_err();
    assert_eq!(err, ContractError::ProtocolViolation);
}

#[test]
fn malformed_callback_is_a_protocol_violation() {
    let mut w = setup();
    let msg = ExecuteMsg::ReceiveNft {
        sender: "deployer".to_string(),
        token_id: "nft".to_string(),
        msg: ReceiveMsg::Fractionalize {
            owners: Vec::new(),
            name: "name".to_string(),
            symbol: "symbol".to_string(),
        },
    };
    execute(&mut w.state, "nft-contract".to_string(), msg, 0).unwrap();
    // a truncated payload must not commit anything
    let err = reply(&mut w.state, &[0x0a, 200]).unwrap_err();
    assert_eq!(err, ContractError::ProtocolViolation);
    // the slot is still pending, so a well-formed callback still lands
    let payload = encode_instantiate_response("cw20-contract");
    reply(&mut w.state, payload.as_slice()).unwrap();
    assert_eq!(
        get_fractional_address(&w, "nft-contract", "nft"),
        "cw20-contract"
    );
}

#[test]
fn count_active_follows_records() {
    let mut w = setup();
    assert_eq!(w.state.count_active(), 0);
    mint_nft(&mut w, "deployer", "nft-contract", "nft", "deployer");
    let owners = two_owner_distribution(&w);
    fractionalize(&mut w, "deployer", "nft-contract", "nft", owners, "cw20-contract");
    assert_eq!(w.state.count_active(), 1);
    token_transfer(&mut w, "user_two", "cw20-contract", 2, "user_one");
    unfractionalize(&mut w, "user_one", "cw20-contract", 3).unwrap();
    assert_eq!(w.state.count_active(), 0);
}

#[test]
fn two_pairs_fractionalize_independently() {
    let mut w = setup();
    mint_nft(&mut w, "deployer", "nft-contract", "nft", "deployer");
    mint_nft(&mut w, "deployer", "nft-contract", "other", "deployer");
    let owners = vec![Cw20Coin {
        address: "user_one".to_string(),
        amount: 4,
    }];
    fractionalize(&mut w, "deployer", "nft-contract", "nft", owners, "cw20-contract");
    let owners = vec![Cw20Coin {
        address: "user_two".to_string(),
        amount: 7,
    }];
    fractionalize(&mut w, "deployer", "nft-contract", "other", owners, "cw20-other");

    assert_eq!(
        get_fractional_address(&w, "nft-contract", "nft"),
        "cw20-contract"
    );
    assert_eq!(
        get_fractional_address(&w, "nft-contract", "other"),
        "cw20-other"
    );
    assert_eq!(w.state.count_active(), 2);

    // redeeming one leaves the other untouched
    unfractionalize(&mut w, "user_two", "cw20-other", 7).unwrap();
    assert_eq!(
        get_fractional_address(&w, "nft-contract", "nft"),
        "cw20-contract"
    );
    assert_eq!(w.state.count_active(), 1);
}

#[test]
fn setup_writes_version_bookkeeping_once() {
    let w = setup();
    assert_eq!(w.state.contract_name, "crates.io:cw-fractionalize");
    assert_eq!(w.state.contract_version, "0.1.0");
}

#[test]
fn creation_instruction_carries_the_request() {
    let mut w = setup();
    let msg = ExecuteMsg::ReceiveNft {
        sender: "deployer".to_string(),
        token_id: "nft".to_string(),
        msg: ReceiveMsg::Fractionalize {
            owners: vec![
                Cw20Coin {
                    address: "user_one".to_string(),
                    amount: 1,
                },
                Cw20Coin {
                    address: "user_two".to_string(),
                    amount: 2,
                },
            ],
            name: "Shares".to_string(),
            symbol: "SHR".to_string(),
        },
    };
    let resp = execute(&mut w.state, "nft-contract".to_string(), msg, 0).unwrap();
    assert_eq!(resp.messages.len(), 1);
    match &resp.messages[0] {
        Action::InstantiateFungibleToken {
            name,
            symbol,
            decimals,
            initial_balances,
            request_reply,
        } => {
            assert_eq!(name, "Shares");
            assert_eq!(symbol, "SHR");
            assert_eq!(*decimals, 6u8);
            assert!(*request_reply);
            assert_eq!(initial_balances.len(), 2);
            assert_eq!(initial_balances[0].address, "user_one");
            assert_eq!(initial_balances[0].amount, 1u128);
            assert_eq!(initial_balances[1].address, "user_two");
            assert_eq!(initial_balances[1].amount, 2u128);
        }
        other => panic!("wrong instruction: {:?}", other),
    }
}

#[test]
fn redemption_instructions_transfer_then_burn() {
    let mut w = setup();
    mint_nft(&mut w, "deployer", "nft-contract", "nft", "deployer");
    let owners = two_owner_distribution(&w);
    fractionalize(&mut w, "deployer", "nft-contract", "nft", owners, "cw20-contract");
    token_transfer(&mut w, "user_two", "cw20-contract", 2, "user_one");

    let msg = ExecuteMsg::Receive {
        sender: "user_one".to_string(),
        amount: 3,
        msg: ReceiveMsg::Unfractionalize {
            recipient: "user_one".to_string(),
        },
    };
    let resp = execute(&mut w.state, "cw20-contract".to_string(), msg, 3).unwrap();
    assert_eq!(resp.messages.len(), 2);
    match &resp.messages[0] {
        Action::TransferNonFungible {
            collection,
            recipient,
            token_id,
        } => {
            assert_eq!(collection, "nft-contract");
            assert_eq!(recipient, "user_one");
            assert_eq!(token_id, "nft");
        }
        other => panic!("wrong instruction: {:?}", other),
    }
    match &resp.messages[1] {
        Action::BurnFungible {
            token_contract,
            amount,
        } => {
            assert_eq!(token_contract, "cw20-contract");
            assert_eq!(*amount, 3u128);
        }
        other => panic!("wrong instruction: {:?}", other),
    }
}

#[test]
fn errors_describe_themselves() {
    assert_eq!(ContractError::Unauthorized.describe(), "unauthorized");
    assert_eq!(ContractError::Exists.describe(), "already fractionalized");
    assert_eq!(
        ContractError::NotFractionalized.describe(),
        "not fractionalized"
    );
    assert_eq!(ContractError::NotFound.describe(), "not found");
    assert_eq!(
        ContractError::InsufficientFunds.describe(),
        "insufficient funds"
    );
    assert_eq!(
        ContractError::ProtocolViolation.describe(),
        "protocol violation"
    );
}
