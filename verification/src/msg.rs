//! The call surface: one variant per operation, and the response shapes the
//! read-only queries return.

use vstd::prelude::*;

use crate::state::{Approval, Balance, Expiration, TokenInfo};

verus! {

/// Initialization parameters for a new collection.
#[derive(Debug)]
pub struct InstantiateMsg {
    /// Base URI for metadata. It supports id substitution by clients and is
    /// immutable post-creation.
    pub metadata_uri: String,
    /// The minter is the only account that can perform minting operations.
    /// If no value is passed, the default one is the message sender.
    pub minter: Option<String>,
    /// The owner is the only account that can register new tokens.
    /// If no value is passed, the default one is the message sender.
    pub owner: Option<String>,
    /// The name of the collection.
    pub name: String,
    /// The description of the collection.
    pub description: String,
}

/// Every mutation the ledger accepts.
#[derive(Debug)]
pub enum ExecuteMsg {
    /// Register a new token.
    Register { max_supply: Option<u128>, is_transferrable: Option<bool> },
    /// Mint an already registered token. The payload, if any, is handed on
    /// to the recipient by the host and does not touch the ledger.
    Mint { to: String, id: u64, amount: u128, msg: Option<Vec<u8>> },
    /// Burn an already minted token.
    Burn { from: String, id: u64, amount: u128 },
    /// Transfer an already minted token.
    TransferFrom { from: String, to: String, id: u64, amount: u128, msg: Option<Vec<u8>> },
    /// Grant the operator the right to manage all tokens of the sender.
    ApproveAll { operator: String, expiration: Option<Expiration> },
    /// Revoke a previously granted approval.
    RevokeAll { operator: String },
    /// Change who may mint; nothing disables minting for good.
    SetMinter { minter: Option<String> },
    /// Disable the minting operations for a specific token id.
    DisableTokenMinting { id: u64 },
    /// Change who may register; nothing disables registration for good.
    SetOwner { owner: Option<String> },
    /// Change the collection's name and description.
    UpdateCollectionDetails { name: String, description: String },
}

/// Every read-only query the ledger answers.
#[derive(Debug)]
pub enum QueryMsg {
    /// The balance of one owner for one token.
    Balance { owner: String, id: u64 },
    /// The balances of one owner for a list of tokens.
    BatchBalance { owner: String, ids: Vec<u64> },
    /// The stored grant for an (owner, operator) pair, if any.
    IsApprovedForAll { owner: String, operator: String },
    /// The collection configuration.
    Config {},
    /// The catalog entry of one token.
    TokenInfo { id: u64 },
    /// A page of catalog entries in ascending id order.
    TokensInfo { start_after: Option<u64>, limit: Option<u32> },
    /// A page of one owner's grants in ascending operator order.
    ApprovalsByOwner { owner: String, start_after: Option<String>, limit: Option<u32> },
    /// A page of one operator's grants in ascending owner order.
    ApprovalsByOperator { operator: String, start_after: Option<String>, limit: Option<u32> },
    /// A page of one owner's balances in ascending token id order.
    BalancesByOwner { owner: String, start_after: Option<u64>, limit: Option<u32> },
    /// A page of one token's balances in ascending owner order.
    BalancesById { id: u64, start_after: Option<String>, limit: Option<u32> },
}

/// ConfigResponse holds basic collection information.
#[derive(Debug, PartialEq, Eq)]
pub struct ConfigResponse {
    /// Number of registered tokens.
    pub registered_tokens: u64,
    /// Base URI for collection metadata.
    pub metadata_uri: String,
    /// Authorized minter address. None implies minting is disabled.
    pub minter: Option<String>,
    /// Authorized owner address. None implies changes are locked.
    pub owner: Option<String>,
    /// Collection title.
    pub name: String,
    /// Collection description.
    pub description: String,
}

/// One catalog entry together with its token id.
#[derive(Debug, PartialEq, Eq)]
pub struct TokenInfoResponse {
    pub id: u64,
    pub info: TokenInfo,
}

/// BalanceResponse holds the amount of a balance.
#[derive(Debug, PartialEq, Eq)]
pub struct BalanceResponse {
    pub amount: u128,
}

/// BatchBalanceResponse holds the amounts of the balances.
#[derive(Debug, PartialEq, Eq)]
pub struct BatchBalanceResponse {
    pub balances: Vec<u128>,
}

/// IsApprovedForAllResponse holds the expiration of the grant, if one is
/// stored for the pair.
#[derive(Debug, PartialEq, Eq)]
pub struct IsApprovedForAllResponse {
    pub expiration: Option<Expiration>,
}

/// The answer to a [`QueryMsg`], one variant per query.
#[derive(Debug, PartialEq, Eq)]
pub enum QueryAnswer {
    Balance(u128),
    BatchBalance(Vec<u128>),
    IsApprovedForAll(Option<Expiration>),
    Config(ConfigResponse),
    TokenInfo(TokenInfo),
    TokensInfo(Vec<TokenInfoResponse>),
    ApprovalsByOwner(Vec<Approval>),
    ApprovalsByOperator(Vec<Approval>),
    BalancesByOwner(Vec<Balance>),
    BalancesById(Vec<Balance>),
}

} // verus!
