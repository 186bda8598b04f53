//! Collection configuration, registration, role changes and minting locks.

use cw1155_nabla::contract as api;
use cw1155_nabla::execute as ops;
use cw1155_nabla::msg::{ConfigResponse, InstantiateMsg};
use cw1155_nabla::query as qry;
use cw1155_nabla::state::{BlockInfo, State};
use cw1155_nabla::ContractError;

const METADATA_URI: &str = "https://metadata_uri_nabla_collection/{ID}.json";
const NAME: &str = "nabla collection";
const DESCRIPTION: &str = "This is the official nabla tokens collection";

fn block() -> BlockInfo {
    BlockInfo { height: 12_345, time: 1_571_797_419_879_305_533 }
}

fn setup(minter: Option<&str>, owner: Option<&str>) -> State {
    api::instantiate(
        InstantiateMsg {
            metadata_uri: METADATA_URI.to_string(),
            minter: minter.map(|s| s.to_string()),
            owner: owner.map(|s| s.to_string()),
            name: NAME.to_string(),
            description: DESCRIPTION.to_string(),
        },
        "sender".to_string(),
    )
}

#[test]
fn get_config() {
    let minter = "minter".to_string();
    let owner = "owner".to_string();

    let contract = setup(Some("minter"), Some("owner"));

    let info = qry::query_config(&contract);
    assert_eq!(
        info,
        ConfigResponse {
            registered_tokens: 0,
            metadata_uri: METADATA_URI.to_string(),
            minter: Some(minter.to_string()),
            owner: Some(owner.to_string()),
            name: NAME.to_string(),
            description: DESCRIPTION.to_string(),
        }
    );
}

#[test]
fn get_config_empty_owner_and_minter() {
    let sender = "sender".to_string();

    let contract = setup(None, None);

    let info = qry::query_config(&contract);
    assert_eq!(
        info,
        ConfigResponse {
            registered_tokens: 0,
            metadata_uri: METADATA_URI.to_string(),
            minter: Some(sender.to_string()),
            owner: Some(sender.to_string()),
            name: NAME.to_string(),
            description: DESCRIPTION.to_string(),
        }
    );
}

#[test]
fn get_no_registered_tokens() {
    let contract = setup(None, None);

    let token_count = qry::query_config(&contract).registered_tokens;
    assert_eq!(token_count, 0);
}

#[test]
fn register_max_supply_and_is_transferable_token() {
    let sender = "sender".to_string();

    let mut contract = setup(None, None);
    ops::register(&mut contract, &sender, Some(1000u128), Some(true)).unwrap();

    let token_count = qry::query_config(&contract).registered_tokens;
    assert_eq!(token_count, 1);
}

#[test]
fn register_max_supply_and_is_not_transferrable_token() {
    let sender = "sender".to_string();

    let mut contract = setup(None, None);
    ops::register(&mut contract, &sender, Some(1u128), Some(false)).unwrap();

    let token_count = qry::query_config(&contract).registered_tokens;
    assert_eq!(token_count, 1);
}

#[test]
fn register_max_supply_zero_token() {
    let sender = "sender".to_string();

    let mut contract = setup(None, None);

    let err = ops::register(&mut contract, &sender, Some(0u128), None).unwrap_err();
    assert_eq!(err, ContractError::ZeroMaxSupply {});

    let token_count = qry::query_config(&contract).registered_tokens;
    assert_eq!(token_count, 0);
}

#[test]
fn get_one_registered_token() {
    let sender = "sender".to_string();

    let mut contract = setup(None, None);
    ops::register(&mut contract, &sender, None, None).unwrap();

    let token_count = qry::query_config(&contract).registered_tokens;
    assert_eq!(token_count, 1);
}

#[test]
fn unauthorized_register() {
    let sender = "sender".to_string();

    let mut contract = setup(None, Some("owner"));

    let err = ops::register(&mut contract, &sender, None, None).unwrap_err();
    assert_eq!(err, ContractError::NotOwner {});

    let token_count = qry::query_config(&contract).registered_tokens;
    assert_eq!(token_count, 0);
}

#[test]
fn set_minter_mint() {
    let sender = "sender".to_string();
    let minter = "minter".to_string();
    let recipient = "recipient".to_string();

    let mut contract = setup(None, None);
    ops::register(&mut contract, &sender, None, None).unwrap();

    let current_supply = qry::query_token_info(&contract, 1).unwrap().current_supply;
    assert_eq!(current_supply, 0u128);

    ops::mint(&mut contract, &sender, &recipient, 1, 10u128).unwrap();
    let current_supply = qry::query_token_info(&contract, 1).unwrap().current_supply;
    assert_eq!(current_supply, 10u128);

    let user_balance = qry::query_balance(&contract, &recipient, 1).unwrap();
    assert_eq!(user_balance, 10u128);

    ops::set_minter(&mut contract, &sender, Some(minter.to_string())).unwrap();

    ops::mint(&mut contract, &minter, &recipient, 1, 10u128).unwrap();
    let current_supply = qry::query_token_info(&contract, 1).unwrap().current_supply;
    assert_eq!(current_supply, 20u128);

    let user_balance = qry::query_balance(&contract, &recipient, 1).unwrap();
    assert_eq!(user_balance, 20u128);

    let err = ops::mint(&mut contract, &sender, &recipient, 1, 10u128).unwrap_err();
    assert_eq!(err, ContractError::NotMinter);
}

#[test]
fn unauthorized_set_minter() {
    let sender = "sender".to_string();
    let minter = "minter".to_string();
    let recipient = "recipient".to_string();

    let mut contract = setup(None, None);
    ops::register(&mut contract, &sender, None, None).unwrap();

    let current_supply = qry::query_token_info(&contract, 1).unwrap().current_supply;
    assert_eq!(current_supply, 0u128);

    ops::set_minter(&mut contract, &sender, Some(minter.to_string())).unwrap();

    let err = ops::set_minter(&mut contract, &sender, Some(recipient.to_string())).unwrap_err();
    assert_eq!(err, ContractError::NotMinter);
}

#[test]
fn set_minter_none() {
    let sender = "sender".to_string();
    let minter = "minter".to_string();

    let mut contract = setup(Some("minter"), None);
    ops::register(&mut contract, &sender, None, None).unwrap();

    let current_supply = qry::query_token_info(&contract, 1).unwrap().current_supply;
    assert_eq!(current_supply, 0u128);

    let err = ops::set_minter(&mut contract, &sender, None).unwrap_err();
    assert_eq!(err, ContractError::NotMinter);

    ops::set_minter(&mut contract, &minter, None).unwrap();
}

#[test]
fn set_owner_register() {
    let sender = "sender".to_string();
    let owner = "minter".to_string();

    let mut contract = setup(None, None);
    ops::register(&mut contract, &sender, None, None).unwrap();

    let err = qry::query_token_info(&contract, 2).unwrap_err();
    assert!(err.message().to_lowercase().contains("invalid token"));

    ops::set_owner(&mut contract, &sender, Some(owner.to_string())).unwrap();

    ops::register(&mut contract, &owner, None, None).unwrap();

    let current_supply = qry::query_token_info(&contract, 2).unwrap().current_supply;
    assert_eq!(current_supply, 0u128);
}

#[test]
fn unauthorized_set_owner() {
    let sender = "sender".to_string();
    let new_owner = "new_owner".to_string();

    let mut contract = setup(None, Some("owner"));

    let err = ops::set_owner(&mut contract, &sender, Some(new_owner.to_string())).unwrap_err();
    assert_eq!(err, ContractError::NotOwner);
}

#[test]
fn set_owner_none() {
    let sender = "sender".to_string();

    let mut contract = setup(None, None);
    ops::set_owner(&mut contract, &sender, None).unwrap();
}

#[test]
fn mint_disable_minting() {
    let sender = "sender".to_string();
    let recipient = "recipient".to_string();

    let mut contract = setup(None, None);
    ops::register(&mut contract, &sender, None, None).unwrap();
    ops::register(&mut contract, &sender, None, None).unwrap();

    let current_supply = qry::query_token_info(&contract, 1).unwrap().current_supply;
    assert_eq!(current_supply, 0u128);

    ops::mint(&mut contract, &sender, &recipient, 1, 10u128).unwrap();
    let current_supply = qry::query_token_info(&contract, 1).unwrap().current_supply;
    assert_eq!(current_supply, 10u128);

    ops::disable_token_minting(&mut contract, &sender, 1).unwrap();

    let err = ops::mint(&mut contract, &sender, &recipient, 1, 10u128).unwrap_err();
    assert_eq!(err, ContractError::CannotExceedMaxSupply);

    let user_balance = qry::query_balance(&contract, &recipient, 1).unwrap();
    assert_eq!(user_balance, 10u128);
}

#[test]
fn mint_burn_disable_minting() {
    let sender = "sender".to_string();
    let recipient = "recipient".to_string();

    let mut contract = setup(None, None);
    ops::register(&mut contract, &sender, None, None).unwrap();
    ops::register(&mut contract, &sender, None, None).unwrap();

    let current_supply = qry::query_token_info(&contract, 1).unwrap().current_supply;
    assert_eq!(current_supply, 0u128);

    ops::mint(&mut contract, &sender, &recipient, 1, 10u128).unwrap();
    let current_supply = qry::query_token_info(&contract, 1).unwrap().current_supply;
    assert_eq!(current_supply, 10u128);

    ops::burn(&mut contract, &block(), &recipient, &recipient, 1, 3u128).unwrap();

    ops::disable_token_minting(&mut contract, &sender, 1).unwrap();

    let err = ops::mint(&mut contract, &sender, &recipient, 1, 3u128).unwrap_err();
    assert_eq!(err, ContractError::CannotExceedMaxSupply);

    let user_balance = qry::query_balance(&contract, &recipient, 1).unwrap();
    assert_eq!(user_balance, 7u128);
}

#[test]
fn mint_disable_minting_burn() {
    let sender = "sender".to_string();
    let recipient = "recipient".to_string();

    let mut contract = setup(None, None);
    ops::register(&mut contract, &sender, None, None).unwrap();
    ops::register(&mut contract, &sender, None, None).unwrap();

    let current_supply = qry::query_token_info(&contract, 1).unwrap().current_supply;
    assert_eq!(current_supply, 0u128);

    ops::mint(&mut contract, &sender, &recipient, 1, 10u128).unwrap();
    let current_supply = qry::query_token_info(&contract, 1).unwrap().current_supply;
    assert_eq!(current_supply, 10u128);

    ops::disable_token_minting(&mut contract, &sender, 1).unwrap();

    ops::burn(&mut contract, &block(), &recipient, &recipient, 1, 3u128).unwrap();

    let err = ops::mint(&mut contract, &sender, &recipient, 1, 3u128).unwrap_err();
    assert_eq!(err, ContractError::CannotExceedMaxSupply);

    let user_balance = qry::query_balance(&contract, &recipient, 1).unwrap();
    assert_eq!(user_balance, 7u128);
}

#[test]
fn update_collection() {
    let owner = "recipient".to_string();

    let mut contract = setup(None, Some("recipient"));

    let ConfigResponse { name, description, .. } = qry::query_config(&contract);
    assert_eq!(name, NAME);
    assert_eq!(description, DESCRIPTION);

    ops::update_collection_details(
        &mut contract,
        &owner,
        NAME.to_string() + " updated",
        DESCRIPTION.to_string() + " updated",
    )
    .unwrap();

    let ConfigResponse { name, description, .. } = qry::query_config(&contract);
    assert_eq!(name, NAME.to_string() + " updated");
    assert_eq!(description, DESCRIPTION.to_string() + " updated");
}

#[test]
fn unauthorized_update_collection() {
    let sender = "sender".to_string();

    let mut contract = setup(None, Some("recipient"));

    let ConfigResponse { name, description, .. } = qry::query_config(&contract);
    assert_eq!(name, NAME);
    assert_eq!(description, DESCRIPTION);

    let err = ops::update_collection_details(
        &mut contract,
        &sender,
        NAME.to_string() + " updated",
        DESCRIPTION.to_string() + " updated",
    )
    .unwrap_err();
    assert_eq!(err, ContractError::NotOwner);
}
