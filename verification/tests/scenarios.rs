//! End-to-end scenarios: accounting invariants across operation sequences,
//! error surfaces, and the rendered error texts.

use cw1155_nabla::contract as api;
use cw1155_nabla::error::dec_of_u128;
use cw1155_nabla::execute as ops;
use cw1155_nabla::msg::{ExecuteMsg, InstantiateMsg};
use cw1155_nabla::query as qry;
use cw1155_nabla::state::{BlockInfo, Expiration, State};
use cw1155_nabla::ContractError;

const METADATA_URI: &str = "https://metadata_uri_nabla_collection/{ID}.json";
const NAME: &str = "nabla collection";
const DESCRIPTION: &str = "This is the official nabla tokens collection";

fn block() -> BlockInfo {
    BlockInfo { height: 12_345, time: 1_571_797_419_879_305_533 }
}

fn setup() -> State {
    api::instantiate(
        InstantiateMsg {
            metadata_uri: METADATA_URI.to_string(),
            minter: None,
            owner: None,
            name: NAME.to_string(),
            description: DESCRIPTION.to_string(),
        },
        "sender".to_string(),
    )
}

/// The total of all balances for a token, summed through the public query.
fn balance_sum(st: &State, owners: &[&str], id: u64) -> u128 {
    let mut total: u128 = 0;
    for o in owners {
        total += qry::query_balance(st, &o.to_string(), id).unwrap();
    }
    total
}

#[test]
fn supply_cap_holds_after_operations() {
    let sender = "sender".to_string();
    let r = "r".to_string();

    let mut contract = setup();
    ops::register(&mut contract, &sender, Some(20u128), None).unwrap();

    ops::mint(&mut contract, &sender, &r, 1, 15u128).unwrap();
    ops::burn(&mut contract, &block(), &r, &r, 1, 5u128).unwrap();

    let info = qry::query_token_info(&contract, 1).unwrap();
    assert_eq!(info.current_supply, 10u128);
    assert_eq!(info.burned, 5u128);
    assert!(info.current_supply + info.burned <= info.max_supply.unwrap());

    // Minting up to the cap is fine; one more is not.
    ops::mint(&mut contract, &sender, &r, 1, 5u128).unwrap();
    let err = ops::mint(&mut contract, &sender, &r, 1, 1u128).unwrap_err();
    assert_eq!(err, ContractError::CannotExceedMaxSupply);

    let info = qry::query_token_info(&contract, 1).unwrap();
    assert!(info.current_supply + info.burned <= info.max_supply.unwrap());
}

#[test]
fn balances_sum_to_supply() {
    let sender = "sender".to_string();
    let r1 = "r1".to_string();
    let r2 = "r2".to_string();

    let mut contract = setup();
    ops::register(&mut contract, &sender, None, None).unwrap();

    ops::mint(&mut contract, &sender, &r1, 1, 8u128).unwrap();
    ops::mint(&mut contract, &sender, &r2, 1, 12u128).unwrap();
    assert_eq!(
        balance_sum(&contract, &["r1", "r2"], 1),
        qry::query_token_info(&contract, 1).unwrap().current_supply
    );

    ops::transfer_from(&mut contract, &block(), &r1, &r1, &r2, 1, 5u128).unwrap();
    assert_eq!(
        balance_sum(&contract, &["r1", "r2"], 1),
        qry::query_token_info(&contract, 1).unwrap().current_supply
    );

    ops::burn(&mut contract, &block(), &r2, &r2, 1, 2u128).unwrap();
    assert_eq!(
        balance_sum(&contract, &["r1", "r2"], 1),
        qry::query_token_info(&contract, 1).unwrap().current_supply
    );
    assert_eq!(qry::query_token_info(&contract, 1).unwrap().current_supply, 18u128);
}

#[test]
fn mint_then_burn_restores_supply() {
    let sender = "sender".to_string();
    let r = "r".to_string();

    let mut contract = setup();
    ops::register(&mut contract, &sender, None, None).unwrap();
    ops::mint(&mut contract, &sender, &r, 1, 4u128).unwrap();

    let before = qry::query_token_info(&contract, 1).unwrap();

    ops::mint(&mut contract, &sender, &r, 1, 10u128).unwrap();
    ops::burn(&mut contract, &block(), &r, &r, 1, 10u128).unwrap();

    let after = qry::query_token_info(&contract, 1).unwrap();
    assert_eq!(after.current_supply, before.current_supply);
    assert_eq!(after.burned, before.burned + 10u128);
    assert!(after.burned >= before.burned);
}

#[test]
fn transfer_round_trip_restores_balances() {
    let sender = "sender".to_string();
    let r1 = "r1".to_string();
    let r2 = "r2".to_string();

    let mut contract = setup();
    ops::register(&mut contract, &sender, None, None).unwrap();
    ops::mint(&mut contract, &sender, &r1, 1, 9u128).unwrap();
    ops::mint(&mut contract, &sender, &r2, 1, 2u128).unwrap();

    let b1 = qry::query_balance(&contract, &r1, 1).unwrap();
    let b2 = qry::query_balance(&contract, &r2, 1).unwrap();

    ops::transfer_from(&mut contract, &block(), &r1, &r1, &r2, 1, 6u128).unwrap();
    ops::transfer_from(&mut contract, &block(), &r2, &r2, &r1, 1, 6u128).unwrap();

    assert_eq!(qry::query_balance(&contract, &r1, 1).unwrap(), b1);
    assert_eq!(qry::query_balance(&contract, &r2, 1).unwrap(), b2);
}

#[test]
fn uncapped_mint_and_balance() {
    let sender = "sender".to_string();
    let r = "r".to_string();

    let mut contract = setup();
    ops::register(&mut contract, &sender, None, None).unwrap();
    ops::mint(&mut contract, &sender, &r, 1, 10u128).unwrap();

    assert_eq!(qry::query_balance(&contract, &r, 1).unwrap(), 10u128);
    assert_eq!(qry::query_token_info(&contract, 1).unwrap().current_supply, 10u128);
}

#[test]
fn capped_mint_rejected_at_cap() {
    let sender = "sender".to_string();
    let r = "r".to_string();

    let mut contract = setup();
    ops::register(&mut contract, &sender, Some(20u128), None).unwrap();

    ops::mint(&mut contract, &sender, &r, 1, 15u128).unwrap();
    assert_eq!(qry::query_token_info(&contract, 1).unwrap().current_supply, 15u128);

    let err = ops::mint(&mut contract, &sender, &r, 1, 10u128).unwrap_err();
    assert_eq!(err, ContractError::CannotExceedMaxSupply);
    assert_eq!(qry::query_token_info(&contract, 1).unwrap().current_supply, 15u128);
}

#[test]
fn operator_burn_after_approval() {
    let sender = "sender".to_string();
    let r = "r".to_string();

    let mut contract = setup();
    ops::register(&mut contract, &sender, None, None).unwrap();
    ops::mint(&mut contract, &sender, &r, 1, 10u128).unwrap();

    let err = ops::burn(&mut contract, &block(), &sender, &r, 1, 3u128).unwrap_err();
    assert_eq!(err, ContractError::Unauthorized);

    ops::approve_all(&mut contract, &block(), &r, &sender, Some(Expiration::Never)).unwrap();
    ops::burn(&mut contract, &block(), &sender, &r, 1, 3u128).unwrap();

    let info = qry::query_token_info(&contract, 1).unwrap();
    assert_eq!(info.current_supply, 7u128);
    assert_eq!(info.burned, 3u128);
}

#[test]
fn non_transferrable_token_blocks_transfer() {
    let sender = "sender".to_string();
    let r = "r".to_string();
    let s = "s".to_string();

    let mut contract = setup();
    ops::register(&mut contract, &sender, None, Some(false)).unwrap();
    ops::mint(&mut contract, &sender, &r, 1, 10u128).unwrap();

    let err = ops::transfer_from(&mut contract, &block(), &r, &r, &s, 1, 5u128).unwrap_err();
    assert_eq!(err, ContractError::NotTransferable { id: 1 });

    assert_eq!(qry::query_balance(&contract, &r, 1).unwrap(), 10u128);
    assert_eq!(qry::query_balance(&contract, &s, 1).unwrap(), 0u128);
}

#[test]
fn disable_minting_blocks_further_mint() {
    let sender = "sender".to_string();
    let r = "r".to_string();

    let mut contract = setup();
    ops::register(&mut contract, &sender, None, None).unwrap();
    ops::mint(&mut contract, &sender, &r, 1, 10u128).unwrap();

    ops::disable_token_minting(&mut contract, &sender, 1).unwrap();
    assert_eq!(qry::query_token_info(&contract, 1).unwrap().max_supply, Some(10u128));

    let err = ops::mint(&mut contract, &sender, &r, 1, 1u128).unwrap_err();
    assert_eq!(err, ContractError::CannotExceedMaxSupply);
}

#[test]
fn mint_zero_amount_rejected() {
    let sender = "sender".to_string();
    let r = "r".to_string();

    let mut contract = setup();
    ops::register(&mut contract, &sender, None, None).unwrap();

    let err = ops::mint(&mut contract, &sender, &r, 1, 0u128).unwrap_err();
    assert_eq!(err, ContractError::InvalidZeroAmount);
}

#[test]
fn burn_zero_amount_rejected() {
    let sender = "sender".to_string();
    let r = "r".to_string();

    let mut contract = setup();
    ops::register(&mut contract, &sender, None, None).unwrap();
    ops::mint(&mut contract, &sender, &r, 1, 5u128).unwrap();

    let err = ops::burn(&mut contract, &block(), &r, &r, 1, 0u128).unwrap_err();
    assert_eq!(err, ContractError::InvalidZeroAmount);
}

#[test]
fn mint_unregistered_token_rejected() {
    let sender = "sender".to_string();
    let r = "r".to_string();

    let mut contract = setup();

    let err = ops::mint(&mut contract, &sender, &r, 1, 5u128).unwrap_err();
    assert_eq!(err, ContractError::InvalidToken { id: 1 });
}

#[test]
fn renounced_owner_blocks_registration() {
    let sender = "sender".to_string();

    let mut contract = setup();
    ops::set_owner(&mut contract, &sender, None).unwrap();

    let err = ops::register(&mut contract, &sender, None, None).unwrap_err();
    assert_eq!(err, ContractError::NoOwner);
}

#[test]
fn renounced_minter_blocks_minting() {
    let sender = "sender".to_string();
    let r = "r".to_string();

    let mut contract = setup();
    ops::register(&mut contract, &sender, None, None).unwrap();
    ops::set_minter(&mut contract, &sender, None).unwrap();

    let err = ops::mint(&mut contract, &sender, &r, 1, 5u128).unwrap_err();
    assert_eq!(err, ContractError::NoMinter);
}

#[test]
fn supply_overflow_rejected() {
    let sender = "sender".to_string();
    let r = "r".to_string();

    let mut contract = setup();
    ops::register(&mut contract, &sender, None, None).unwrap();
    ops::mint(&mut contract, &sender, &r, 1, u128::MAX).unwrap();

    let err = ops::mint(&mut contract, &sender, &r, 1, 1u128).unwrap_err();
    assert_eq!(err, ContractError::Overflow);
    assert_eq!(qry::query_token_info(&contract, 1).unwrap().current_supply, u128::MAX);
}

#[test]
fn decimal_rendering_is_exact() {
    assert_eq!(dec_of_u128(0), "0");
    assert_eq!(dec_of_u128(7), "7");
    assert_eq!(dec_of_u128(10), "10");
    assert_eq!(dec_of_u128(1_234_567_890), "1234567890");
    assert_eq!(dec_of_u128(u128::MAX), "340282366920938463463374607431768211455");
}

#[test]
fn error_texts_carry_the_numbers() {
    let err = ContractError::InsufficientFunds { id: 1, required: 30u128, available: 10u128 };
    let text = err.message();
    assert!(text.contains("token with id 1"));
    assert!(text.contains("required 30"));
    assert!(text.contains("available 10"));

    let err = ContractError::NotTransferable { id: 12 };
    assert!(err.message().contains("12"));
}

#[test]
fn execute_dispatch_applies_messages() {
    let sender = "sender".to_string();
    let r = "r".to_string();

    let mut contract = setup();
    api::execute(
        &mut contract,
        &block(),
        &sender,
        ExecuteMsg::Register { max_supply: Some(20u128), is_transferrable: None },
    )
    .unwrap();
    api::execute(
        &mut contract,
        &block(),
        &sender,
        ExecuteMsg::Mint { to: r.clone(), id: 1, amount: 10u128, msg: None },
    )
    .unwrap();
    api::execute(
        &mut contract,
        &block(),
        &sender,
        ExecuteMsg::UpdateCollectionDetails {
            name: "renamed".to_string(),
            description: DESCRIPTION.to_string(),
        },
    )
    .unwrap();

    assert_eq!(qry::query_balance(&contract, &r, 1).unwrap(), 10u128);
    assert_eq!(qry::query_config(&contract).name, "renamed");

    let err = api::execute(
        &mut contract,
        &block(),
        &r,
        ExecuteMsg::Burn { from: r.clone(), id: 1, amount: 11u128 },
    )
    .unwrap_err();
    assert_eq!(err, ContractError::InsufficientFunds { id: 1, required: 11u128, available: 10u128 });
}
