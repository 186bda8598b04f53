//! Initialization and the closed dispatch over the call surface: one match
//! arm per operation, so coverage of every message is checked at compile
//! time.

use vstd::prelude::*;

use crate::error::ContractError;
use crate::execute::{
    approve_all, approve_applied, burn, burn_applied, burn_check, details_applied,
    disable_applied, disable_check, disable_token_minting, effective_expiration, mint,
    mint_applied, mint_check, register, register_applied, register_check, revoke_all,
    revoke_applied, set_minter, set_minter_applied, set_owner, set_owner_applied, transfer_applied,
    transfer_check, transfer_from, update_collection_details,
};
use crate::helpers::{minter_check, owner_check};
use crate::msg::{ExecuteMsg, InstantiateMsg, QueryAnswer, QueryMsg};
use crate::query::{
    appr_by_operator_pred, appr_by_owner_pred, bal_by_id_pred, bal_by_owner_pred, effective_limit,
    opt_str_view, page_appr, page_bal, query_approvals_by_operator, query_approvals_by_owner,
    query_approved_for_all, query_balance, query_balances_by_id, query_balances_by_owner,
    query_batch_balance, query_config, query_token_info, query_tokens_info, tokens_page_len,
    tokens_page_start,
};
use crate::state::{
    lemma_tokens_preserved, lemma_tokens_pushed, lemma_tokens_updated, spec_is_expired, BlockInfo,
    Config, State,
};

verus! {

/// Creates a fresh, empty collection. A missing minter or owner defaults to
/// the sender, so both roles start occupied.
pub fn instantiate(msg: InstantiateMsg, sender: String) -> (st: State)
    ensures
        st.wf(),
        st.registered_tokens == 0,
        st.tokens@.len() == 0,
        st.balances@.len() == 0,
        st.approvals@.len() == 0,
        st.config.metadata_uri == msg.metadata_uri,
        st.config.name == msg.name,
        st.config.description == msg.description,
        st.config.minter == Some(
            match msg.minter {
                Some(m) => m,
                None => sender,
            },
        ),
        st.config.owner == Some(
            match msg.owner {
                Some(o) => o,
                None => sender,
            },
        ),
{
    let minter = match msg.minter {
        Some(m) => m,
        None => sender.clone(),
    };
    let owner = match msg.owner {
        Some(o) => o,
        None => sender,
    };
    State {
        config: Config {
            metadata_uri: msg.metadata_uri,
            minter: Some(minter),
            owner: Some(owner),
            name: msg.name,
            description: msg.description,
        },
        registered_tokens: 0,
        tokens: Vec::new(),
        balances: Vec::new(),
        approvals: Vec::new(),
    }
}

/// Applies one mutation to the ledger. Whatever the message, a failure
/// leaves the state untouched, well-formedness is preserved, and no token's
/// burned total ever decreases.
pub fn execute(st: &mut State, block: &BlockInfo, sender: &String, msg: ExecuteMsg) -> (r: Result<
    (),
    ContractError,
>)
    requires
        old(st).wf(),
    ensures
        final(st).wf(),
        r is Err ==> *final(st) == *old(st),
        forall|id: u64|
            1 <= id <= old(st).registered_tokens ==> (#[trigger] final(st).spec_token(id)).burned
                >= old(st).spec_token(id).burned,
        match msg {
            ExecuteMsg::Register { max_supply, is_transferrable } => {
                &&& r == (match register_check(*old(st), sender@, max_supply) {
                    Ok(_) => Ok::<(), ContractError>(()),
                    Err(e) => Err::<(), ContractError>(e),
                })
                &&& (r is Ok ==> register_applied(
                    *old(st),
                    *final(st),
                    max_supply,
                    is_transferrable,
                ))
            },
            ExecuteMsg::Mint { to, id, amount, .. } => {
                &&& r == mint_check(*old(st), sender@, id, amount)
                &&& (r is Ok ==> mint_applied(*old(st), *final(st), to@, id, amount))
            },
            ExecuteMsg::Burn { from, id, amount } => {
                &&& r == burn_check(*old(st), *block, sender@, from@, id, amount)
                &&& (r is Ok ==> burn_applied(*old(st), *final(st), from@, id, amount))
            },
            ExecuteMsg::TransferFrom { from, to, id, amount, .. } => {
                &&& r == transfer_check(*old(st), *block, sender@, from@, to@, id, amount)
                &&& (r is Ok ==> transfer_applied(*old(st), *final(st), from@, to@, id, amount))
            },
            ExecuteMsg::ApproveAll { operator, expiration } => {
                &&& r == (if spec_is_expired(effective_expiration(expiration), *block) {
                    Err::<(), ContractError>(ContractError::Expired)
                } else {
                    Ok::<(), ContractError>(())
                })
                &&& (r is Ok ==> approve_applied(
                    *old(st),
                    *final(st),
                    sender@,
                    operator@,
                    effective_expiration(expiration),
                ))
            },
            ExecuteMsg::RevokeAll { operator } => {
                &&& r == Ok::<(), ContractError>(())
                &&& revoke_applied(*old(st), *final(st), sender@, operator@)
            },
            ExecuteMsg::SetMinter { minter } => {
                &&& r == minter_check(*old(st), sender@)
                &&& (r is Ok ==> set_minter_applied(*old(st), *final(st), minter))
            },
            ExecuteMsg::DisableTokenMinting { id } => {
                &&& r == disable_check(*old(st), sender@, id)
                &&& (r is Ok ==> disable_applied(*old(st), *final(st), id))
            },
            ExecuteMsg::SetOwner { owner } => {
                &&& r == owner_check(*old(st), sender@)
                &&& (r is Ok ==> set_owner_applied(*old(st), *final(st), owner))
            },
            ExecuteMsg::UpdateCollectionDetails { name, description } => {
                &&& r == owner_check(*old(st), sender@)
                &&& (r is Ok ==> details_applied(*old(st), *final(st), name, description))
            },
        },
{
    match msg {
        ExecuteMsg::Register { max_supply, is_transferrable } => {
            let r = match register(st, sender, max_supply, is_transferrable) {
                Ok(_) => Ok(()),
                Err(e) => Err(e),
            };
            proof {
                if r is Ok {
                    lemma_tokens_pushed(
                        *old(st),
                        *st,
                        crate::state::TokenInfo {
                            is_transferrable: match is_transferrable {
                                Some(b) => b,
                                None => true,
                            },
                            max_supply,
                            burned: 0,
                            current_supply: 0,
                        },
                    );
                }
            }
            r
        },
        ExecuteMsg::Mint { to, id, amount, msg: _ } => {
            let r = mint(st, sender, &to, id, amount);
            proof {
                if r is Ok {
                    lemma_tokens_updated(
                        *old(st),
                        *st,
                        id,
                        crate::state::TokenInfo {
                            is_transferrable: old(st).spec_token(id).is_transferrable,
                            max_supply: old(st).spec_token(id).max_supply,
                            burned: old(st).spec_token(id).burned,
                            current_supply: (old(st).spec_token(id).current_supply
                                + amount) as u128,
                        },
                    );
                }
            }
            r
        },
        ExecuteMsg::Burn { from, id, amount } => {
            let r = burn(st, block, sender, &from, id, amount);
            proof {
                if r is Ok {
                    lemma_tokens_updated(
                        *old(st),
                        *st,
                        id,
                        crate::state::TokenInfo {
                            is_transferrable: old(st).spec_token(id).is_transferrable,
                            max_supply: old(st).spec_token(id).max_supply,
                            burned: (old(st).spec_token(id).burned + amount) as u128,
                            current_supply: (old(st).spec_token(id).current_supply
                                - amount) as u128,
                        },
                    );
                }
            }
            r
        },
        ExecuteMsg::TransferFrom { from, to, id, amount, msg: _ } => {
            let r = transfer_from(st, block, sender, &from, &to, id, amount);
            proof {
                if r is Ok {
                    lemma_tokens_preserved(*old(st), *st);
                }
            }
            r
        },
        ExecuteMsg::ApproveAll { operator, expiration } => {
            let r = approve_all(st, block, sender, &operator, expiration);
            proof {
                if r is Ok {
                    lemma_tokens_preserved(*old(st), *st);
                }
            }
            r
        },
        ExecuteMsg::RevokeAll { operator } => {
            let r = revoke_all(st, sender, &operator);
            proof {
                lemma_tokens_preserved(*old(st), *st);
            }
            r
        },
        ExecuteMsg::SetMinter { minter } => {
            let r = set_minter(st, sender, minter);
            proof {
                if r is Ok {
                    lemma_tokens_preserved(*old(st), *st);
                }
            }
            r
        },
        ExecuteMsg::DisableTokenMinting { id } => {
            let r = disable_token_minting(st, sender, id);
            proof {
                if r is Ok {
                    lemma_tokens_updated(
                        *old(st),
                        *st,
                        id,
                        crate::state::TokenInfo {
                            is_transferrable: old(st).spec_token(id).is_transferrable,
                            max_supply: Some(
                                (old(st).spec_token(id).current_supply + old(st).spec_token(
                                    id,
                                ).burned) as u128,
                            ),
                            burned: old(st).spec_token(id).burned,
                            current_supply: old(st).spec_token(id).current_supply,
                        },
                    );
                }
            }
            r
        },
        ExecuteMsg::SetOwner { owner } => {
            let r = set_owner(st, sender, owner);
            proof {
                if r is Ok {
                    lemma_tokens_preserved(*old(st), *st);
                }
            }
            r
        },
        ExecuteMsg::UpdateCollectionDetails { name, description } => {
            let r = update_collection_details(st, sender, name, description);
            proof {
                if r is Ok {
                    lemma_tokens_preserved(*old(st), *st);
                }
            }
            r
        },
    }
}

/// Answers one read-only query.
pub fn query(st: &State, msg: QueryMsg) -> (r: Result<QueryAnswer, ContractError>)
    requires
        st.wf(),
    ensures
        match msg {
            QueryMsg::Balance { owner, id } => r == (if st.spec_registered(id) {
                Ok::<QueryAnswer, ContractError>(QueryAnswer::Balance(st.spec_balance(owner@, id)))
            } else {
                Err::<QueryAnswer, ContractError>(ContractError::InvalidToken { id })
            }),
            QueryMsg::BatchBalance { owner, ids } => {
                &&& (r is Ok <==> (forall|k: int|
                    0 <= k < ids@.len() ==> #[trigger] ids@[k] <= st.registered_tokens))
                &&& (r matches Ok(a) ==> a matches QueryAnswer::BatchBalance(v) && v@.len()
                    == ids@.len() && (forall|k: int|
                    0 <= k < ids@.len() ==> v@[k] == st.spec_balance(
                        owner@,
                        #[trigger] ids@[k],
                    )))
                &&& (r matches Err(e) ==> (exists|k: int|
                    0 <= k < ids@.len() && #[trigger] ids@[k] > st.registered_tokens && e
                        == (ContractError::InvalidToken { id: ids@[k] })))
            },
            QueryMsg::IsApprovedForAll { owner, operator } => r == Ok::<
                QueryAnswer,
                ContractError,
            >(QueryAnswer::IsApprovedForAll(st.spec_approval(owner@, operator@))),
            QueryMsg::Config {  } => r matches Ok(a) && a matches QueryAnswer::Config(c) && {
                &&& c.registered_tokens == st.registered_tokens
                &&& c.metadata_uri == st.config.metadata_uri
                &&& c.minter == st.config.minter
                &&& c.owner == st.config.owner
                &&& c.name == st.config.name
                &&& c.description == st.config.description
            },
            QueryMsg::TokenInfo { id } => r == (if st.spec_registered(id) {
                Ok::<QueryAnswer, ContractError>(QueryAnswer::TokenInfo(st.spec_token(id)))
            } else {
                Err::<QueryAnswer, ContractError>(ContractError::InvalidToken { id })
            }),
            QueryMsg::TokensInfo { start_after, limit } => r matches Ok(a) && a matches
                QueryAnswer::TokensInfo(v) && v@.len() == tokens_page_len(*st, start_after, limit)
                && (forall|k: int|
                0 <= k < v@.len() ==> (#[trigger] v@[k]).id == tokens_page_start(start_after) + k
                    && v@[k].info == st.spec_token((tokens_page_start(start_after) + k) as u64)),
            QueryMsg::ApprovalsByOwner { owner, start_after, limit } => r matches Ok(a) && a matches
                QueryAnswer::ApprovalsByOwner(v) && v@ == page_appr(
                st.approvals@,
                appr_by_owner_pred(owner@, opt_str_view(start_after)),
                effective_limit(limit),
            ),
            QueryMsg::ApprovalsByOperator { operator, start_after, limit } => r matches Ok(a) && a
                matches QueryAnswer::ApprovalsByOperator(v) && v@ == page_appr(
                st.approvals@,
                appr_by_operator_pred(operator@, opt_str_view(start_after)),
                effective_limit(limit),
            ),
            QueryMsg::BalancesByOwner { owner, start_after, limit } => r matches Ok(a) && a matches
                QueryAnswer::BalancesByOwner(v) && v@ == page_bal(
                st.balances@,
                bal_by_owner_pred(owner@, start_after),
                effective_limit(limit),
            ),
            QueryMsg::BalancesById { id, start_after, limit } => r matches Ok(a) && a matches
                QueryAnswer::BalancesById(v) && v@ == page_bal(
                st.balances@,
                bal_by_id_pred(id, opt_str_view(start_after)),
                effective_limit(limit),
            ),
        },
{
    match msg {
        QueryMsg::Balance { owner, id } => {
            match query_balance(st, &owner, id) {
                Ok(a) => Ok(QueryAnswer::Balance(a)),
                Err(e) => Err(e),
            }
        },
        QueryMsg::BatchBalance { owner, ids } => {
            match query_batch_balance(st, &owner, &ids) {
                Ok(v) => Ok(QueryAnswer::BatchBalance(v)),
                Err(e) => Err(e),
            }
        },
        QueryMsg::IsApprovedForAll { owner, operator } => {
            Ok(QueryAnswer::IsApprovedForAll(query_approved_for_all(st, &owner, &operator)))
        },
        QueryMsg::Config {  } => Ok(QueryAnswer::Config(query_config(st))),
        QueryMsg::TokenInfo { id } => {
            match query_token_info(st, id) {
                Ok(t) => Ok(QueryAnswer::TokenInfo(t)),
                Err(e) => Err(e),
            }
        },
        QueryMsg::TokensInfo { start_after, limit } => {
            Ok(QueryAnswer::TokensInfo(query_tokens_info(st, start_after, limit)))
        },
        QueryMsg::ApprovalsByOwner { owner, start_after, limit } => {
            Ok(
                QueryAnswer::ApprovalsByOwner(
                    query_approvals_by_owner(st, &owner, start_after, limit),
                ),
            )
        },
        QueryMsg::ApprovalsByOperator { operator, start_after, limit } => {
            Ok(
                QueryAnswer::ApprovalsByOperator(
                    query_approvals_by_operator(st, &operator, start_after, limit),
                ),
            )
        },
        QueryMsg::BalancesByOwner { owner, start_after, limit } => {
            Ok(
                QueryAnswer::BalancesByOwner(
                    query_balances_by_owner(st, &owner, start_after, limit),
                ),
            )
        },
        QueryMsg::BalancesById { id, start_after, limit } => {
            Ok(QueryAnswer::BalancesById(query_balances_by_id(st, id, start_after, limit)))
        },
    }
}

} // verus!
