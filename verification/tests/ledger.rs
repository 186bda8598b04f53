//! Minting, burning and transferring against a fresh collection.

use cw1155_nabla::contract as api;
use cw1155_nabla::execute as ops;
use cw1155_nabla::msg::InstantiateMsg;
use cw1155_nabla::query as qry;
use cw1155_nabla::state::{BlockInfo, Expiration, State, TokenInfo};
use cw1155_nabla::ContractError;

const METADATA_URI: &str = "https://metadata_uri_nabla_collection/{ID}.json";
const NAME: &str = "nabla collection";
const DESCRIPTION: &str = "This is the official nabla tokens collection";

fn block() -> BlockInfo {
    BlockInfo { height: 12_345, time: 1_571_797_419_879_305_533 }
}

fn setup(minter: Option<&str>, owner: Option<&str>) -> State {
    api::instantiate(
        InstantiateMsg {
            metadata_uri: METADATA_URI.to_string(),
            minter: minter.map(|s| s.to_string()),
            owner: owner.map(|s| s.to_string()),
            name: NAME.to_string(),
            description: DESCRIPTION.to_string(),
        },
        "sender".to_string(),
    )
}

#[test]
fn mint() {
    let sender = "sender".to_string();
    let recipient = "recipient".to_string();

    let mut contract = setup(None, None);
    ops::register(&mut contract, &sender, None, None).unwrap();

    let current_supply = qry::query_token_info(&contract, 1).unwrap().current_supply;
    assert_eq!(current_supply, 0u128);

    ops::mint(&mut contract, &sender, &recipient, 1, 10u128).unwrap();

    let current_supply = qry::query_token_info(&contract, 1).unwrap().current_supply;
    assert_eq!(current_supply, 10u128);

    let user_balance = qry::query_balance(&contract, &recipient, 1).unwrap();
    assert_eq!(user_balance, 10u128);
}

#[test]
fn unauthorized_mint() {
    let sender = "sender".to_string();
    let recipient = "recipient".to_string();

    let mut contract = setup(None, None);
    ops::register(&mut contract, &sender, None, None).unwrap();

    let current_supply = qry::query_token_info(&contract, 1).unwrap().current_supply;
    assert_eq!(current_supply, 0u128);

    let err = ops::mint(&mut contract, &recipient, &recipient, 1, 10u128).unwrap_err();
    assert_eq!(err, ContractError::NotMinter);

    let current_supply = qry::query_token_info(&contract, 1).unwrap().current_supply;
    assert_eq!(current_supply, 0u128);

    let user_balance = qry::query_balance(&contract, &recipient, 1).unwrap();
    assert_eq!(user_balance, 0u128);
}

#[test]
fn try_overcome_max_supply() {
    let sender = "sender".to_string();
    let recipient = "recipient".to_string();

    let mut contract = setup(None, None);
    ops::register(&mut contract, &sender, Some(20u128), None).unwrap();

    let current_supply = qry::query_token_info(&contract, 1).unwrap().current_supply;
    assert_eq!(current_supply, 0u128);

    let err = ops::mint(&mut contract, &sender, &recipient, 1, 100u128).unwrap_err();
    assert_eq!(err, ContractError::CannotExceedMaxSupply);

    let current_supply = qry::query_token_info(&contract, 1).unwrap().current_supply;
    assert_eq!(current_supply, 0u128);
}

#[test]
fn multiple_mint() {
    let sender = "sender".to_string();
    let recipient = "recipient".to_string();

    let mut contract = setup(None, None);
    ops::register(&mut contract, &sender, Some(20u128), None).unwrap();

    let current_supply = qry::query_token_info(&contract, 1).unwrap().current_supply;
    assert_eq!(current_supply, 0u128);

    ops::mint(&mut contract, &sender, &recipient, 1, 10u128).unwrap();
    let current_supply = qry::query_token_info(&contract, 1).unwrap().current_supply;
    assert_eq!(current_supply, 10u128);

    ops::mint(&mut contract, &sender, &recipient, 1, 10u128).unwrap();
    let current_supply = qry::query_token_info(&contract, 1).unwrap().current_supply;
    assert_eq!(current_supply, 20u128);

    let err = ops::mint(&mut contract, &sender, &recipient, 1, 10u128).unwrap_err();
    assert_eq!(err, ContractError::CannotExceedMaxSupply);
}

#[test]
fn mint_multiple_recipients() {
    let sender = "sender".to_string();
    let recipient1 = "recipient1".to_string();
    let recipient2 = "recipient2".to_string();

    let mut contract = setup(None, None);
    ops::register(&mut contract, &sender, Some(20u128), None).unwrap();

    let current_supply = qry::query_token_info(&contract, 1).unwrap().current_supply;
    assert_eq!(current_supply, 0u128);

    ops::mint(&mut contract, &sender, &recipient1, 1, 8u128).unwrap();
    let current_supply = qry::query_token_info(&contract, 1).unwrap().current_supply;
    assert_eq!(current_supply, 8u128);

    ops::mint(&mut contract, &sender, &recipient2, 1, 12u128).unwrap();
    let current_supply = qry::query_token_info(&contract, 1).unwrap().current_supply;
    assert_eq!(current_supply, 20u128);

    let recipient1_balance = qry::query_balance(&contract, &recipient1, 1).unwrap();
    assert_eq!(recipient1_balance, 8u128);

    let recipient2_balance = qry::query_balance(&contract, &recipient2, 1).unwrap();
    assert_eq!(recipient2_balance, 12u128);
}

#[test]
fn burn() {
    let sender = "sender".to_string();
    let recipient = "recipient".to_string();

    let mut contract = setup(None, None);
    ops::register(&mut contract, &sender, None, None).unwrap();

    let current_supply = qry::query_token_info(&contract, 1).unwrap().current_supply;
    assert_eq!(current_supply, 0u128);

    ops::mint(&mut contract, &sender, &recipient, 1, 10u128).unwrap();
    let current_supply = qry::query_token_info(&contract, 1).unwrap().current_supply;
    assert_eq!(current_supply, 10u128);

    let user_balance = qry::query_balance(&contract, &recipient, 1).unwrap();
    assert_eq!(user_balance, 10u128);

    ops::burn(&mut contract, &block(), &recipient, &recipient, 1, 3u128).unwrap();

    let TokenInfo { current_supply, burned, .. } =
        qry::query_token_info(&contract, 1).unwrap();
    assert_eq!(current_supply, 7u128);
    assert_eq!(burned, 3u128);

    let user_balance = qry::query_balance(&contract, &recipient, 1).unwrap();
    assert_eq!(user_balance, 7u128);
}

#[test]
fn unauthorized_burn() {
    let sender = "sender".to_string();
    let recipient = "recipient".to_string();

    let mut contract = setup(None, None);
    ops::register(&mut contract, &sender, None, None).unwrap();

    let current_supply = qry::query_token_info(&contract, 1).unwrap().current_supply;
    assert_eq!(current_supply, 0u128);

    ops::mint(&mut contract, &sender, &recipient, 1, 10u128).unwrap();
    let current_supply = qry::query_token_info(&contract, 1).unwrap().current_supply;
    assert_eq!(current_supply, 10u128);

    let user_balance = qry::query_balance(&contract, &recipient, 1).unwrap();
    assert_eq!(user_balance, 10u128);

    let err = ops::burn(&mut contract, &block(), &sender, &recipient, 1, 3u128).unwrap_err();
    assert_eq!(err, ContractError::Unauthorized);

    let TokenInfo { current_supply, burned, .. } =
        qry::query_token_info(&contract, 1).unwrap();
    assert_eq!(current_supply, 10u128);
    assert_eq!(burned, 0u128);

    let user_balance = qry::query_balance(&contract, &recipient, 1).unwrap();
    assert_eq!(user_balance, 10u128);
}

#[test]
fn insufficient_burn() {
    let sender = "sender".to_string();

    let mut contract = setup(None, None);
    ops::register(&mut contract, &sender, None, None).unwrap();

    let current_supply = qry::query_token_info(&contract, 1).unwrap().current_supply;
    assert_eq!(current_supply, 0u128);

    let err = ops::burn(&mut contract, &block(), &sender, &sender, 1, 3u128).unwrap_err();
    assert_eq!(
        err,
        ContractError::InsufficientFunds { id: 1, required: 3u128, available: 0u128 }
    );
}

#[test]
fn approved_burn() {
    let sender = "sender".to_string();
    let recipient = "recipient".to_string();

    let mut contract = setup(None, None);
    ops::register(&mut contract, &sender, None, None).unwrap();

    let current_supply = qry::query_token_info(&contract, 1).unwrap().current_supply;
    assert_eq!(current_supply, 0u128);

    ops::mint(&mut contract, &sender, &recipient, 1, 10u128).unwrap();
    let current_supply = qry::query_token_info(&contract, 1).unwrap().current_supply;
    assert_eq!(current_supply, 10u128);

    let user_balance = qry::query_balance(&contract, &recipient, 1).unwrap();
    assert_eq!(user_balance, 10u128);

    ops::approve_all(&mut contract, &block(), &recipient, &sender, Some(Expiration::Never))
        .unwrap();

    ops::burn(&mut contract, &block(), &sender, &recipient, 1, 3u128).unwrap();

    let TokenInfo { current_supply, burned, .. } =
        qry::query_token_info(&contract, 1).unwrap();
    assert_eq!(current_supply, 7u128);
    assert_eq!(burned, 3u128);

    let user_balance = qry::query_balance(&contract, &recipient, 1).unwrap();
    assert_eq!(user_balance, 7u128);
}

#[test]
fn too_much_to_burn() {
    let sender = "sender".to_string();
    let recipient = "recipient".to_string();

    let mut contract = setup(None, None);
    ops::register(&mut contract, &sender, None, None).unwrap();

    let current_supply = qry::query_token_info(&contract, 1).unwrap().current_supply;
    assert_eq!(current_supply, 0u128);

    ops::mint(&mut contract, &sender, &recipient, 1, 10u128).unwrap();
    ops::mint(&mut contract, &sender, &sender, 1, 40u128).unwrap();

    let current_supply = qry::query_token_info(&contract, 1).unwrap().current_supply;
    assert_eq!(current_supply, 50u128);

    let user_balance = qry::query_balance(&contract, &recipient, 1).unwrap();
    assert_eq!(user_balance, 10u128);

    let err = ops::burn(&mut contract, &block(), &recipient, &recipient, 1, 30u128).unwrap_err();
    assert_eq!(
        err,
        ContractError::InsufficientFunds { id: 1, required: 30u128, available: 10u128 }
    );

    let TokenInfo { current_supply, burned, .. } =
        qry::query_token_info(&contract, 1).unwrap();
    assert_eq!(current_supply, 50u128);
    assert_eq!(burned, 0u128);

    let user_balance = qry::query_balance(&contract, &recipient, 1).unwrap();
    assert_eq!(user_balance, 10u128);
}

#[test]
fn transfer_from() {
    let sender = "sender".to_string();
    let recipient1 = "recipient1".to_string();
    let recipient2 = "recipient2".to_string();

    let mut contract = setup(None, None);
    ops::register(&mut contract, &sender, Some(20u128), None).unwrap();

    let current_supply = qry::query_token_info(&contract, 1).unwrap().current_supply;
    assert_eq!(current_supply, 0u128);

    ops::mint(&mut contract, &sender, &recipient1, 1, 10u128).unwrap();
    let current_supply = qry::query_token_info(&contract, 1).unwrap().current_supply;
    assert_eq!(current_supply, 10u128);

    ops::transfer_from(&mut contract, &block(), &recipient1, &recipient1, &recipient2, 1, 5u128)
        .unwrap();

    let TokenInfo { current_supply, burned, .. } =
        qry::query_token_info(&contract, 1).unwrap();
    assert_eq!(current_supply, 10u128);
    assert_eq!(burned, 0u128);

    let recipient1_balance = qry::query_balance(&contract, &recipient1, 1).unwrap();
    assert_eq!(recipient1_balance, 5u128);

    let recipient2_balance = qry::query_balance(&contract, &recipient2, 1).unwrap();
    assert_eq!(recipient2_balance, 5u128);
}

#[test]
fn unauthorized_transfer_from() {
    let sender = "sender".to_string();
    let recipient1 = "recipient1".to_string();
    let recipient2 = "recipient2".to_string();

    let mut contract = setup(None, None);
    ops::register(&mut contract, &sender, Some(20u128), None).unwrap();

    let current_supply = qry::query_token_info(&contract, 1).unwrap().current_supply;
    assert_eq!(current_supply, 0u128);

    ops::mint(&mut contract, &sender, &recipient1, 1, 10u128).unwrap();
    let current_supply = qry::query_token_info(&contract, 1).unwrap().current_supply;
    assert_eq!(current_supply, 10u128);

    let err =
        ops::transfer_from(&mut contract, &block(), &sender, &recipient1, &recipient2, 1, 5u128)
            .unwrap_err();
    assert_eq!(err, ContractError::Unauthorized {});

    let recipient1_balance = qry::query_balance(&contract, &recipient1, 1).unwrap();
    assert_eq!(recipient1_balance, 10u128);
}

#[test]
fn unallowed_transfer_from() {
    let sender = "sender".to_string();
    let recipient1 = "recipient1".to_string();
    let recipient2 = "recipient2".to_string();

    let mut contract = setup(None, None);
    ops::register(&mut contract, &sender, Some(20u128), Some(false)).unwrap();

    let current_supply = qry::query_token_info(&contract, 1).unwrap().current_supply;
    assert_eq!(current_supply, 0u128);

    ops::mint(&mut contract, &sender, &recipient1, 1, 10u128).unwrap();
    let current_supply = qry::query_token_info(&contract, 1).unwrap().current_supply;
    assert_eq!(current_supply, 10u128);

    let err = ops::transfer_from(
        &mut contract,
        &block(),
        &recipient1,
        &recipient1,
        &recipient2,
        1,
        5u128,
    )
    .unwrap_err();
    assert_eq!(err, ContractError::NotTransferable { id: 1 });

    let recipient1_balance = qry::query_balance(&contract, &recipient1, 1).unwrap();
    assert_eq!(recipient1_balance, 10u128);
}

#[test]
fn authorized_transfer_from() {
    let sender = "sender".to_string();
    let recipient1 = "recipient1".to_string();
    let recipient2 = "recipient2".to_string();

    let mut contract = setup(None, None);
    ops::register(&mut contract, &sender, Some(20u128), None).unwrap();

    let current_supply = qry::query_token_info(&contract, 1).unwrap().current_supply;
    assert_eq!(current_supply, 0u128);

    ops::mint(&mut contract, &sender, &recipient1, 1, 10u128).unwrap();
    let current_supply = qry::query_token_info(&contract, 1).unwrap().current_supply;
    assert_eq!(current_supply, 10u128);

    ops::approve_all(&mut contract, &block(), &recipient1, &sender, Some(Expiration::Never))
        .unwrap();

    ops::transfer_from(&mut contract, &block(), &sender, &recipient1, &recipient2, 1, 5u128)
        .unwrap();

    let recipient1_balance = qry::query_balance(&contract, &recipient1, 1).unwrap();
    assert_eq!(recipient1_balance, 5u128);

    let recipient2_balance = qry::query_balance(&contract, &recipient2, 1).unwrap();
    assert_eq!(recipient2_balance, 5u128);
}

#[test]
fn too_much_to_transfer_from() {
    let sender = "sender".to_string();
    let recipient1 = "recipient1".to_string();
    let recipient2 = "recipient2".to_string();

    let mut contract = setup(None, None);
    ops::register(&mut contract, &sender, Some(20u128), None).unwrap();

    let current_supply = qry::query_token_info(&contract, 1).unwrap().current_supply;
    assert_eq!(current_supply, 0u128);

    ops::mint(&mut contract, &sender, &recipient1, 1, 10u128).unwrap();
    let current_supply = qry::query_token_info(&contract, 1).unwrap().current_supply;
    assert_eq!(current_supply, 10u128);

    let err = ops::transfer_from(
        &mut contract,
        &block(),
        &recipient1,
        &recipient1,
        &recipient2,
        1,
        15u128,
    )
    .unwrap_err();
    assert_eq!(
        err,
        ContractError::InsufficientFunds { id: 1, required: 15u128, available: 10u128 }
    );
}

#[test]
fn transfer_zero() {
    let sender = "sender".to_string();
    let recipient1 = "recipient1".to_string();
    let recipient2 = "recipient2".to_string();

    let mut contract = setup(None, None);
    ops::register(&mut contract, &sender, Some(20u128), None).unwrap();

    let current_supply = qry::query_token_info(&contract, 1).unwrap().current_supply;
    assert_eq!(current_supply, 0u128);

    ops::mint(&mut contract, &sender, &recipient1, 1, 10u128).unwrap();
    let current_supply = qry::query_token_info(&contract, 1).unwrap().current_supply;
    assert_eq!(current_supply, 10u128);

    let err = ops::transfer_from(
        &mut contract,
        &block(),
        &recipient1,
        &recipient1,
        &recipient2,
        1,
        0u128,
    )
    .unwrap_err();
    assert_eq!(err, ContractError::InvalidZeroAmount);

    let recipient1_balance = qry::query_balance(&contract, &recipient1, 1).unwrap();
    assert_eq!(recipient1_balance, 10u128);

    let recipient2_balance = qry::query_balance(&contract, &recipient2, 1).unwrap();
    assert_eq!(recipient2_balance, 0u128);
}

#[test]
fn auto_transfer() {
    let sender = "sender".to_string();
    let recipient1 = "recipient1".to_string();

    let mut contract = setup(None, None);
    ops::register(&mut contract, &sender, Some(20u128), None).unwrap();

    let current_supply = qry::query_token_info(&contract, 1).unwrap().current_supply;
    assert_eq!(current_supply, 0u128);

    ops::mint(&mut contract, &sender, &recipient1, 1, 10u128).unwrap();
    let current_supply = qry::query_token_info(&contract, 1).unwrap().current_supply;
    assert_eq!(current_supply, 10u128);

    ops::transfer_from(&mut contract, &block(), &recipient1, &recipient1, &recipient1, 1, 5u128)
        .unwrap();

    let recipient1_balance = qry::query_balance(&contract, &recipient1, 1).unwrap();
    assert_eq!(recipient1_balance, 10u128);
}
