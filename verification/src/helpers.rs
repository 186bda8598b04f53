//! Guarded single-row operations: role checks, the token counter, supply
//! counters, and balance updates. The full operations in [`crate::execute`]
//! are composed from these.

use vstd::prelude::*;

use crate::error::ContractError;
use crate::rows::{appr_lookup, bal_lookup, bal_upsert, bal_id_present};
use crate::state::{
    balances_updated, spec_is_expired, BlockInfo, State, TokenInfo,
};

verus! {

/// Possible actions that can be performed on a balance.
pub enum BalanceAction {
    Increase,
    Decrease,
}

/// Whether `operator` may act for `owner` under the given clock: owners
/// manage themselves, and otherwise an unexpired grant must exist.
pub open spec fn spec_can_manage(
    st: State,
    block: BlockInfo,
    owner: Seq<char>,
    operator: Seq<char>,
) -> bool {
    ||| owner == operator
    ||| (st.spec_approval(owner, operator) matches Some(e) && !spec_is_expired(e, block))
}

/// Whether the sender is the current owner, and the exact failure if not.
pub open spec fn owner_check(st: State, sender: Seq<char>) -> Result<(), ContractError> {
    match st.config.owner {
        None => Err(ContractError::NoOwner),
        Some(o) => if o@ == sender {
            Ok(())
        } else {
            Err(ContractError::NotOwner)
        },
    }
}

/// Whether the sender is the current minter, and the exact failure if not.
pub open spec fn minter_check(st: State, sender: Seq<char>) -> Result<(), ContractError> {
    match st.config.minter {
        None => Err(ContractError::NoMinter),
        Some(m) => if m@ == sender {
            Ok(())
        } else {
            Err(ContractError::NotMinter)
        },
    }
}

/// Asserts that an account is the collection's current owner.
pub fn assert_owner(st: &State, sender: &String) -> (r: Result<(), ContractError>)
    ensures
        r == owner_check(*st, sender@),
{
    match &st.config.owner {
        None => Err(ContractError::NoOwner),
        Some(o) => if *o == *sender {
            Ok(())
        } else {
            Err(ContractError::NotOwner)
        },
    }
}

/// Asserts that an account is the collection's current minter.
pub fn assert_minter(st: &State, sender: &String) -> (r: Result<(), ContractError>)
    ensures
        r == minter_check(*st, sender@),
{
    match &st.config.minter {
        None => Err(ContractError::NoMinter),
        Some(m) => if *m == *sender {
            Ok(())
        } else {
            Err(ContractError::NotMinter)
        },
    }
}

/// Asserts that `operator` may manage `owner`'s tokens right now.
/// Self-management always succeeds, with no stored grant required.
pub fn assert_can_manage(
    st: &State,
    block: &BlockInfo,
    owner: &String,
    operator: &String,
) -> (r: Result<(), ContractError>)
    ensures
        r is Ok <==> spec_can_manage(*st, *block, owner@, operator@),
        owner@ == operator@ ==> r is Ok,
        r is Err ==> r == Err::<(), ContractError>(ContractError::Unauthorized),
{
    if *owner == *operator {
        return Ok(());
    }
    match appr_lookup(&st.approvals, owner, operator) {
        Some(e) => if !e.is_expired(block) {
            Ok(())
        } else {
            Err(ContractError::Unauthorized)
        },
        None => Err(ContractError::Unauthorized),
    }
}

/// The balance of an account for a token; zero when no row exists.
pub fn fetch_balance(st: &State, owner: &String, id: u64) -> (r: Result<u128, ContractError>)
    ensures
        r == Ok::<u128, ContractError>(st.spec_balance(owner@, id)),
{
    Ok(bal_lookup(&st.balances, owner, id))
}

/// Allocates the next token id by bumping the registration counter.
pub fn increase_registered_tokens(st: &mut State) -> (r: Result<u64, ContractError>)
    ensures
        old(st).registered_tokens == u64::MAX ==> r == Err::<u64, ContractError>(
            ContractError::MaximumNumberOfTokens,
        ) && *final(st) == *old(st),
        old(st).registered_tokens < u64::MAX ==> {
            &&& r == Ok::<u64, ContractError>((old(st).registered_tokens + 1) as u64)
            &&& final(st).registered_tokens == old(st).registered_tokens + 1
            &&& final(st).config == old(st).config
            &&& final(st).tokens == old(st).tokens
            &&& final(st).balances == old(st).balances
            &&& final(st).approvals == old(st).approvals
        },
{
    if st.registered_tokens == u64::MAX {
        return Err(ContractError::MaximumNumberOfTokens);
    }
    st.registered_tokens = st.registered_tokens + 1;
    Ok(st.registered_tokens)
}

/// Raises a token's outstanding supply by `amount`, enforcing the machine
/// range and the token's cap.
pub fn increase_current_supply(st: &mut State, id: u64, amount: u128) -> (r: Result<
    TokenInfo,
    ContractError,
>)
    requires
        old(st).wf_base(),
    ensures
        final(st).wf_base(),
        final(st).config == old(st).config,
        final(st).registered_tokens == old(st).registered_tokens,
        final(st).balances == old(st).balances,
        final(st).approvals == old(st).approvals,
        r is Err ==> *final(st) == *old(st),
        amount == 0 ==> r == Err::<TokenInfo, ContractError>(ContractError::InvalidZeroAmount),
        amount != 0 && !old(st).spec_registered(id) ==> r == Err::<TokenInfo, ContractError>(
            ContractError::InvalidToken { id },
        ),
        amount != 0 && old(st).spec_registered(id) ==> {
            let t = old(st).spec_token(id);
            if t.current_supply + amount + t.burned > u128::MAX {
                r == Err::<TokenInfo, ContractError>(ContractError::Overflow)
            } else if t.max_supply matches Some(m) && t.current_supply + amount + t.burned > m {
                r == Err::<TokenInfo, ContractError>(ContractError::CannotExceedMaxSupply)
            } else {
                &&& r == Ok::<TokenInfo, ContractError>(final(st).spec_token(id))
                &&& final(st).tokens@ == old(st).tokens@.update(
                    id - 1,
                    TokenInfo {
                        is_transferrable: t.is_transferrable,
                        max_supply: t.max_supply,
                        burned: t.burned,
                        current_supply: (t.current_supply + amount) as u128,
                    },
                )
            }
        },
{
    if amount == 0 {
        return Err(ContractError::InvalidZeroAmount);
    }
    if id < 1 || id > st.registered_tokens {
        return Err(ContractError::InvalidToken { id });
    }
    let n = st.tokens.len();
    let idx = (id - 1) as usize;
    proof {
        assert(n == old(st).registered_tokens);
        assert(idx as int == id - 1);
    }
    let t = st.tokens[idx];
    if amount > u128::MAX - t.current_supply {
        return Err(ContractError::Overflow);
    }
    let new_supply = t.current_supply + amount;
    if t.burned > u128::MAX - new_supply {
        return Err(ContractError::Overflow);
    }
    let total = new_supply + t.burned;
    if let Some(m) = t.max_supply {
        if total > m {
            return Err(ContractError::CannotExceedMaxSupply);
        }
    }
    let updated = TokenInfo {
        is_transferrable: t.is_transferrable,
        max_supply: t.max_supply,
        burned: t.burned,
        current_supply: new_supply,
    };
    st.tokens[idx] = updated;
    Ok(updated)
}

/// Lowers a token's outstanding supply by `amount` and books the same amount
/// as burned; the combined total is unchanged.
pub fn decrease_current_supply(st: &mut State, id: u64, amount: u128) -> (r: Result<
    TokenInfo,
    ContractError,
>)
    requires
        old(st).wf_base(),
    ensures
        final(st).wf_base(),
        final(st).config == old(st).config,
        final(st).registered_tokens == old(st).registered_tokens,
        final(st).balances == old(st).balances,
        final(st).approvals == old(st).approvals,
        r is Err ==> *final(st) == *old(st),
        amount == 0 ==> r == Err::<TokenInfo, ContractError>(ContractError::InvalidZeroAmount),
        amount != 0 && !old(st).spec_registered(id) ==> r == Err::<TokenInfo, ContractError>(
            ContractError::InvalidToken { id },
        ),
        amount != 0 && old(st).spec_registered(id) ==> {
            let t = old(st).spec_token(id);
            if t.current_supply < amount {
                r == Err::<TokenInfo, ContractError>(
                    ContractError::InsufficientFunds {
                        id,
                        required: amount,
                        available: t.current_supply,
                    },
                )
            } else {
                &&& r == Ok::<TokenInfo, ContractError>(final(st).spec_token(id))
                &&& final(st).tokens@ == old(st).tokens@.update(
                    id - 1,
                    TokenInfo {
                        is_transferrable: t.is_transferrable,
                        max_supply: t.max_supply,
                        burned: (t.burned + amount) as u128,
                        current_supply: (t.current_supply - amount) as u128,
                    },
                )
            }
        },
{
    if amount == 0 {
        return Err(ContractError::InvalidZeroAmount);
    }
    if id < 1 || id > st.registered_tokens {
        return Err(ContractError::InvalidToken { id });
    }
    let n = st.tokens.len();
    let idx = (id - 1) as usize;
    proof {
        assert(n == old(st).registered_tokens);
        assert(idx as int == id - 1);
    }
    let t = st.tokens[idx];
    if t.current_supply < amount {
        return Err(
            ContractError::InsufficientFunds { id, required: amount, available: t.current_supply },
        );
    }
    let updated = TokenInfo {
        is_transferrable: t.is_transferrable,
        max_supply: t.max_supply,
        burned: t.burned + amount,
        current_supply: t.current_supply - amount,
    };
    st.tokens[idx] = updated;
    Ok(updated)
}

/// Freezes a token's cap at its present outstanding-plus-burned total, so
/// that any further mint for it fails.
pub fn update_max_supply(st: &mut State, id: u64) -> (r: Result<TokenInfo, ContractError>)
    requires
        old(st).wf_base(),
    ensures
        final(st).wf_base(),
        final(st).config == old(st).config,
        final(st).registered_tokens == old(st).registered_tokens,
        final(st).balances == old(st).balances,
        final(st).approvals == old(st).approvals,
        r is Err ==> *final(st) == *old(st),
        !old(st).spec_registered(id) ==> r == Err::<TokenInfo, ContractError>(
            ContractError::InvalidToken { id },
        ),
        old(st).spec_registered(id) ==> {
            let t = old(st).spec_token(id);
            &&& r == Ok::<TokenInfo, ContractError>(final(st).spec_token(id))
            &&& final(st).tokens@ == old(st).tokens@.update(
                id - 1,
                TokenInfo {
                    is_transferrable: t.is_transferrable,
                    max_supply: Some((t.current_supply + t.burned) as u128),
                    burned: t.burned,
                    current_supply: t.current_supply,
                },
            )
        },
{
    if id < 1 || id > st.registered_tokens {
        return Err(ContractError::InvalidToken { id });
    }
    let n = st.tokens.len();
    let idx = (id - 1) as usize;
    proof {
        assert(n == old(st).registered_tokens);
        assert(idx as int == id - 1);
    }
    let t = st.tokens[idx];
    let updated = TokenInfo {
        is_transferrable: t.is_transferrable,
        max_supply: Some(t.current_supply + t.burned),
        burned: t.burned,
        current_supply: t.current_supply,
    };
    st.tokens[idx] = updated;
    Ok(updated)
}

/// Updates (increases or decreases) the balance of an account for a token,
/// creating the row on first touch.
pub fn update_balance(
    st: &mut State,
    addr: &String,
    id: u64,
    amount: u128,
    action: BalanceAction,
) -> (r: Result<u128, ContractError>)
    requires
        old(st).wf_base(),
        old(st).spec_registered(id),
        action is Increase ==> old(st).spec_balance(addr@, id) + amount <= u128::MAX,
    ensures
        final(st).wf_base(),
        final(st).config == old(st).config,
        final(st).registered_tokens == old(st).registered_tokens,
        final(st).tokens == old(st).tokens,
        final(st).approvals == old(st).approvals,
        r is Err ==> *final(st) == *old(st),
        match action {
            BalanceAction::Increase => {
                &&& r == Ok::<u128, ContractError>(
                    (old(st).spec_balance(addr@, id) + amount) as u128,
                )
                &&& balances_updated(
                    *old(st),
                    *final(st),
                    addr@,
                    id,
                    (old(st).spec_balance(addr@, id) + amount) as u128,
                )
            },
            BalanceAction::Decrease => {
                if old(st).spec_balance(addr@, id) < amount {
                    r == Err::<u128, ContractError>(
                        ContractError::InsufficientFunds {
                            id,
                            required: amount,
                            available: old(st).spec_balance(addr@, id),
                        },
                    )
                } else {
                    &&& r == Ok::<u128, ContractError>(
                        (old(st).spec_balance(addr@, id) - amount) as u128,
                    )
                    &&& balances_updated(
                        *old(st),
                        *final(st),
                        addr@,
                        id,
                        (old(st).spec_balance(addr@, id) - amount) as u128,
                    )
                }
            },
        },
{
    let current = bal_lookup(&st.balances, addr, id);
    let new_amount = match action {
        BalanceAction::Increase => current + amount,
        BalanceAction::Decrease => {
            if current < amount {
                return Err(
                    ContractError::InsufficientFunds { id, required: amount, available: current },
                );
            }
            current - amount
        },
    };
    let ghost pre = *st;
    bal_upsert(&mut st.balances, addr, id, new_amount);
    proof {
        assert forall|k: int| 0 <= k < st.balances@.len() implies 1 <= (
        #[trigger] st.balances@[k]).id <= st.registered_tokens by {
            if st.balances@[k].id != id {
                assert(bal_id_present(pre.balances@, st.balances@[k].id));
            }
        }
    }
    Ok(new_amount)
}

} // verus!
