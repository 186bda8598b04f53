//! The ledger's mutation surface: register, mint, burn, transfer, operator
//! grants, and the collection's role changes.
//!
//! Each operation carries two specifications: a *check* function that decides
//! exactly which result the inputs produce, in the order the checks are made,
//! and an *applied* relation that pins down the successor state on success.
//! A failed operation leaves the state exactly as it was.

use vstd::prelude::*;

use crate::error::ContractError;
use crate::helpers::{
    assert_can_manage, assert_minter, assert_owner, decrease_current_supply,
    increase_current_supply, increase_registered_tokens, minter_check, owner_check,
    spec_can_manage, update_balance, update_max_supply, BalanceAction,
};
use crate::rows::{
    appr_remove, appr_upsert, bal_lookup, lemma_find_le_sum, lemma_find_pair_le_sum,
    lemma_nonzero_has_key, lemma_sum_absent,
};
use crate::state::{
    bal_has_key, balances_updated, spec_is_expired, sum_for, BlockInfo, Expiration, State,
    TokenInfo,
};

verus! {

/// The sender is the collection's current owner.
pub open spec fn spec_owner_ok(st: State, sender: Seq<char>) -> bool {
    st.config.owner matches Some(o) && o@ == sender
}

/// The sender is the collection's current minter.
pub open spec fn spec_minter_ok(st: State, sender: Seq<char>) -> bool {
    st.config.minter matches Some(m) && m@ == sender
}

/// An omitted expiration means "never".
pub open spec fn effective_expiration(e: Option<Expiration>) -> Expiration {
    match e {
        Some(x) => x,
        None => Expiration::Never,
    }
}

// ---------------------------------------------------------------------------
// Successor-state relations.
// ---------------------------------------------------------------------------

/// No balance row changed in any observable way.
pub open spec fn balances_unchanged(pre: State, post: State) -> bool {
    &&& (forall|o: Seq<char>, i: u64|
        #[trigger] post.spec_balance(o, i) == pre.spec_balance(o, i))
    &&& (forall|o: Seq<char>, i: u64|
        #[trigger] bal_has_key(post.balances@, o, i) == bal_has_key(pre.balances@, o, i))
    &&& (forall|i: u64| #[trigger] sum_for(post.balances@, i) == sum_for(pre.balances@, i))
    &&& post.balances@.len() == pre.balances@.len()
}

/// `amount` of token `id` moved from one owner to a different one; every
/// per-token total is conserved.
pub open spec fn balances_moved(
    pre: State,
    post: State,
    from: Seq<char>,
    to: Seq<char>,
    id: u64,
    amount: u128,
) -> bool {
    &&& post.spec_balance(from, id) == pre.spec_balance(from, id) - amount
    &&& post.spec_balance(to, id) == pre.spec_balance(to, id) + amount
    &&& (forall|o: Seq<char>, i: u64|
        !(o == from && i == id) && !(o == to && i == id) ==> #[trigger] post.spec_balance(o, i)
            == pre.spec_balance(o, i))
    &&& (forall|i: u64| #[trigger] sum_for(post.balances@, i) == sum_for(pre.balances@, i))
    &&& post.balances@.len() == pre.balances@.len() + (if bal_has_key(pre.balances@, to, id) {
        0int
    } else {
        1int
    })
    &&& bal_has_key(post.balances@, from, id)
    &&& bal_has_key(post.balances@, to, id)
}

/// A successful registration appended one fresh token to the catalog.
pub open spec fn register_applied(
    pre: State,
    post: State,
    max_supply: Option<u128>,
    is_transferrable: Option<bool>,
) -> bool {
    &&& post.registered_tokens == pre.registered_tokens + 1
    &&& post.config == pre.config
    &&& post.balances == pre.balances
    &&& post.approvals == pre.approvals
    &&& post.tokens@ == pre.tokens@.push(
        TokenInfo {
            is_transferrable: match is_transferrable {
                Some(b) => b,
                None => true,
            },
            max_supply,
            burned: 0,
            current_supply: 0,
        },
    )
}

/// A successful mint raised the token's outstanding supply and the
/// recipient's balance by the same amount.
pub open spec fn mint_applied(
    pre: State,
    post: State,
    to: Seq<char>,
    id: u64,
    amount: u128,
) -> bool {
    &&& pre.spec_registered(id)
    &&& pre.spec_token(id).current_supply + amount + pre.spec_token(id).burned <= u128::MAX
    &&& pre.spec_balance(to, id) + amount <= u128::MAX
    &&& post.config == pre.config
    &&& post.registered_tokens == pre.registered_tokens
    &&& post.approvals == pre.approvals
    &&& post.tokens@ == pre.tokens@.update(
        id - 1,
        TokenInfo {
            is_transferrable: pre.spec_token(id).is_transferrable,
            max_supply: pre.spec_token(id).max_supply,
            burned: pre.spec_token(id).burned,
            current_supply: (pre.spec_token(id).current_supply + amount) as u128,
        },
    )
    &&& balances_updated(pre, post, to, id, (pre.spec_balance(to, id) + amount) as u128)
}

/// A successful burn moved `amount` from the holder's balance and the
/// outstanding supply into the burned total; `current_supply + burned` is
/// unchanged.
pub open spec fn burn_applied(
    pre: State,
    post: State,
    from: Seq<char>,
    id: u64,
    amount: u128,
) -> bool {
    &&& pre.spec_registered(id)
    &&& amount <= pre.spec_token(id).current_supply
    &&& pre.spec_token(id).burned + amount <= u128::MAX
    &&& amount <= pre.spec_balance(from, id)
    &&& post.config == pre.config
    &&& post.registered_tokens == pre.registered_tokens
    &&& post.approvals == pre.approvals
    &&& post.tokens@ == pre.tokens@.update(
        id - 1,
        TokenInfo {
            is_transferrable: pre.spec_token(id).is_transferrable,
            max_supply: pre.spec_token(id).max_supply,
            burned: (pre.spec_token(id).burned + amount) as u128,
            current_supply: (pre.spec_token(id).current_supply - amount) as u128,
        },
    )
    &&& balances_updated(pre, post, from, id, (pre.spec_balance(from, id) - amount) as u128)
}

/// A successful transfer moved `amount` between the two owners' rows and
/// changed nothing else; a self-transfer changed nothing at all.
pub open spec fn transfer_applied(
    pre: State,
    post: State,
    from: Seq<char>,
    to: Seq<char>,
    id: u64,
    amount: u128,
) -> bool {
    &&& post.config == pre.config
    &&& post.registered_tokens == pre.registered_tokens
    &&& post.tokens == pre.tokens
    &&& post.approvals == pre.approvals
    &&& (if from == to {
        balances_unchanged(pre, post)
    } else {
        balances_moved(pre, post, from, to, id, amount)
    })
}

/// A successful approval stored exactly one grant for the pair, replacing
/// any prior one.
pub open spec fn approve_applied(
    pre: State,
    post: State,
    owner: Seq<char>,
    operator: Seq<char>,
    expiration: Expiration,
) -> bool {
    &&& post.config == pre.config
    &&& post.registered_tokens == pre.registered_tokens
    &&& post.tokens == pre.tokens
    &&& post.balances == pre.balances
    &&& post.spec_approval(owner, operator) == Some(expiration)
    &&& (forall|o: Seq<char>, p: Seq<char>|
        !(o == owner && p == operator) ==> #[trigger] post.spec_approval(o, p)
            == pre.spec_approval(o, p))
    &&& post.approvals@.len() == pre.approvals@.len() + (if pre.spec_approval(
        owner,
        operator,
    ) is Some {
        0int
    } else {
        1int
    })
}

/// A successful revocation removed the pair's grant, if one existed.
pub open spec fn revoke_applied(
    pre: State,
    post: State,
    owner: Seq<char>,
    operator: Seq<char>,
) -> bool {
    &&& post.config == pre.config
    &&& post.registered_tokens == pre.registered_tokens
    &&& post.tokens == pre.tokens
    &&& post.balances == pre.balances
    &&& post.spec_approval(owner, operator) is None
    &&& (forall|o: Seq<char>, p: Seq<char>|
        !(o == owner && p == operator) ==> #[trigger] post.spec_approval(o, p)
            == pre.spec_approval(o, p))
    &&& post.approvals@.len() == pre.approvals@.len() - (if pre.spec_approval(
        owner,
        operator,
    ) is Some {
        1int
    } else {
        0int
    })
}

/// The token catalog after freezing one token's cap at its present total.
pub open spec fn disable_applied(pre: State, post: State, id: u64) -> bool {
    &&& pre.spec_registered(id)
    &&& post.config == pre.config
    &&& post.registered_tokens == pre.registered_tokens
    &&& post.balances == pre.balances
    &&& post.approvals == pre.approvals
    &&& post.tokens@ == pre.tokens@.update(
        id - 1,
        TokenInfo {
            is_transferrable: pre.spec_token(id).is_transferrable,
            max_supply: Some(
                (pre.spec_token(id).current_supply + pre.spec_token(id).burned) as u128,
            ),
            burned: pre.spec_token(id).burned,
            current_supply: pre.spec_token(id).current_supply,
        },
    )
}

/// Only the minter role changed.
pub open spec fn set_minter_applied(pre: State, post: State, minter: Option<String>) -> bool {
    &&& post.config.minter == minter
    &&& post.config.owner == pre.config.owner
    &&& post.config.metadata_uri == pre.config.metadata_uri
    &&& post.config.name == pre.config.name
    &&& post.config.description == pre.config.description
    &&& post.registered_tokens == pre.registered_tokens
    &&& post.tokens == pre.tokens
    &&& post.balances == pre.balances
    &&& post.approvals == pre.approvals
}

/// Only the owner role changed.
pub open spec fn set_owner_applied(pre: State, post: State, owner: Option<String>) -> bool {
    &&& post.config.owner == owner
    &&& post.config.minter == pre.config.minter
    &&& post.config.metadata_uri == pre.config.metadata_uri
    &&& post.config.name == pre.config.name
    &&& post.config.description == pre.config.description
    &&& post.registered_tokens == pre.registered_tokens
    &&& post.tokens == pre.tokens
    &&& post.balances == pre.balances
    &&& post.approvals == pre.approvals
}

/// Only the collection's name and description changed.
pub open spec fn details_applied(pre: State, post: State, name: String, description: String) -> bool {
    &&& post.config.name == name
    &&& post.config.description == description
    &&& post.config.owner == pre.config.owner
    &&& post.config.minter == pre.config.minter
    &&& post.config.metadata_uri == pre.config.metadata_uri
    &&& post.registered_tokens == pre.registered_tokens
    &&& post.tokens == pre.tokens
    &&& post.balances == pre.balances
    &&& post.approvals == pre.approvals
}

// ---------------------------------------------------------------------------
// Decision functions: which result each operation's inputs produce.
// ---------------------------------------------------------------------------

pub open spec fn register_check(st: State, sender: Seq<char>, max_supply: Option<u128>) -> Result<
    (),
    ContractError,
> {
    if st.config.owner is None {
        Err(ContractError::NoOwner)
    } else if !spec_owner_ok(st, sender) {
        Err(ContractError::NotOwner)
    } else if st.registered_tokens == u64::MAX {
        Err(ContractError::MaximumNumberOfTokens)
    } else if max_supply matches Some(m) && m == 0 {
        Err(ContractError::ZeroMaxSupply)
    } else {
        Ok(())
    }
}

pub open spec fn mint_check(st: State, sender: Seq<char>, id: u64, amount: u128) -> Result<
    (),
    ContractError,
> {
    if st.config.minter is None {
        Err(ContractError::NoMinter)
    } else if !spec_minter_ok(st, sender) {
        Err(ContractError::NotMinter)
    } else if amount == 0 {
        Err(ContractError::InvalidZeroAmount)
    } else if !st.spec_registered(id) {
        Err(ContractError::InvalidToken { id })
    } else if st.spec_token(id).current_supply + amount + st.spec_token(id).burned > u128::MAX {
        Err(ContractError::Overflow)
    } else if st.spec_token(id).max_supply matches Some(m) && st.spec_token(id).current_supply
        + amount + st.spec_token(id).burned > m {
        Err(ContractError::CannotExceedMaxSupply)
    } else {
        Ok(())
    }
}

pub open spec fn burn_check(
    st: State,
    block: BlockInfo,
    sender: Seq<char>,
    from: Seq<char>,
    id: u64,
    amount: u128,
) -> Result<(), ContractError> {
    if !spec_can_manage(st, block, from, sender) {
        Err(ContractError::Unauthorized)
    } else if amount == 0 {
        Err(ContractError::InvalidZeroAmount)
    } else if !st.spec_registered(id) {
        Err(ContractError::InvalidToken { id })
    } else if st.spec_token(id).current_supply < amount {
        Err(
            ContractError::InsufficientFunds {
                id,
                required: amount,
                available: st.spec_token(id).current_supply,
            },
        )
    } else if st.spec_balance(from, id) < amount {
        Err(
            ContractError::InsufficientFunds {
                id,
                required: amount,
                available: st.spec_balance(from, id),
            },
        )
    } else {
        Ok(())
    }
}

pub open spec fn transfer_check(
    st: State,
    block: BlockInfo,
    sender: Seq<char>,
    from: Seq<char>,
    to: Seq<char>,
    id: u64,
    amount: u128,
) -> Result<(), ContractError> {
    if !spec_can_manage(st, block, from, sender) {
        Err(ContractError::Unauthorized)
    } else if !st.spec_registered(id) {
        Err(ContractError::InvalidToken { id })
    } else if !st.spec_token(id).is_transferrable {
        Err(ContractError::NotTransferable { id })
    } else if amount == 0 {
        Err(ContractError::InvalidZeroAmount)
    } else if st.spec_balance(from, id) < amount {
        Err(
            ContractError::InsufficientFunds {
                id,
                required: amount,
                available: st.spec_balance(from, id),
            },
        )
    } else {
        Ok(())
    }
}

pub open spec fn disable_check(st: State, sender: Seq<char>, id: u64) -> Result<
    (),
    ContractError,
> {
    if st.config.minter is None {
        Err(ContractError::NoMinter)
    } else if !spec_minter_ok(st, sender) {
        Err(ContractError::NotMinter)
    } else if !st.spec_registered(id) {
        Err(ContractError::InvalidToken { id })
    } else {
        Ok(())
    }
}

// ---------------------------------------------------------------------------
// The operations.
// ---------------------------------------------------------------------------

/// Registers a new token type with an optional supply cap and
/// transferability, allocating the next token id.
pub fn register(
    st: &mut State,
    sender: &String,
    max_supply: Option<u128>,
    is_transferrable: Option<bool>,
) -> (r: Result<u64, ContractError>)
    requires
        old(st).wf(),
    ensures
        final(st).wf(),
        r is Err ==> *final(st) == *old(st),
        r == (match register_check(*old(st), sender@, max_supply) {
            Ok(_) => Ok::<u64, ContractError>((old(st).registered_tokens + 1) as u64),
            Err(e) => Err::<u64, ContractError>(e),
        }),
        r is Ok ==> register_applied(*old(st), *final(st), max_supply, is_transferrable),
{
    if let Err(e) = assert_owner(st, sender) {
        return Err(e);
    }
    if st.registered_tokens == u64::MAX {
        return Err(ContractError::MaximumNumberOfTokens);
    }
    if let Some(m) = max_supply {
        if m == 0 {
            return Err(ContractError::ZeroMaxSupply);
        }
    }
    let ghost pre = *st;
    let next_id = match increase_registered_tokens(st) {
        Ok(v) => v,
        Err(e) => {
            return Err(e);
        },
    };
    let token = TokenInfo {
        is_transferrable: match is_transferrable {
            Some(b) => b,
            None => true,
        },
        max_supply,
        burned: 0,
        current_supply: 0,
    };
    st.tokens.push(token);
    proof {
        assert(st.tokens@ == pre.tokens@.push(token));
        assert forall|k: int| 0 <= k < st.tokens@.len() implies crate::state::token_wf(
            #[trigger] st.tokens@[k],
        ) by {
            if k < pre.tokens@.len() {
                assert(st.tokens@[k] == pre.tokens@[k]);
            }
        }
        assert forall|j: u64| 1 <= j <= st.registered_tokens implies sum_for(st.balances@, j) == (
        #[trigger] st.spec_token(j)).current_supply by {
            if j <= pre.registered_tokens {
                assert(st.spec_token(j) == pre.spec_token(j));
                assert(sum_for(st.balances@, j) == sum_for(pre.balances@, j));
            } else {
                assert forall|k: int| 0 <= k < st.balances@.len() implies (
                #[trigger] st.balances@[k]).id != j by {
                    assert(1 <= st.balances@[k].id <= pre.registered_tokens);
                }
                lemma_sum_absent(st.balances@, j);
            }
        }
    }
    Ok(next_id)
}

/// Internal transfer plumbing: a missing source means a mint, a missing
/// destination a burn of the balance row.
fn exec_transfer(
    st: &mut State,
    from: Option<&String>,
    to: Option<&String>,
    id: u64,
    amount: u128,
) -> (r: Result<(), ContractError>)
    requires
        old(st).wf_base(),
        old(st).spec_registered(id),
        match (from, to) {
            (None, Some(t)) => old(st).spec_balance(t@, id) + amount <= u128::MAX,
            (Some(f), Some(t)) => f@ == t@ || (old(st).spec_balance(f@, id) >= amount ==> old(
                st,
            ).spec_balance(t@, id) + amount <= u128::MAX),
            _ => true,
        },
    ensures
        final(st).wf_base(),
        final(st).config == old(st).config,
        final(st).registered_tokens == old(st).registered_tokens,
        final(st).tokens == old(st).tokens,
        final(st).approvals == old(st).approvals,
        r is Err ==> *final(st) == *old(st),
        amount == 0 ==> r == Err::<(), ContractError>(ContractError::InvalidZeroAmount),
        amount != 0 ==> (match (from, to) {
            (None, None) => r is Ok && final(st).balances == old(st).balances,
            (Some(f), None) => (if old(st).spec_balance(f@, id) < amount {
                r == Err::<(), ContractError>(
                    ContractError::InsufficientFunds {
                        id,
                        required: amount,
                        available: old(st).spec_balance(f@, id),
                    },
                )
            } else {
                r is Ok && balances_updated(
                    *old(st),
                    *final(st),
                    f@,
                    id,
                    (old(st).spec_balance(f@, id) - amount) as u128,
                )
            }),
            (None, Some(t)) => r is Ok && balances_updated(
                *old(st),
                *final(st),
                t@,
                id,
                (old(st).spec_balance(t@, id) + amount) as u128,
            ),
            (Some(f), Some(t)) => (if old(st).spec_balance(f@, id) < amount {
                r == Err::<(), ContractError>(
                    ContractError::InsufficientFunds {
                        id,
                        required: amount,
                        available: old(st).spec_balance(f@, id),
                    },
                )
            } else if f@ == t@ {
                r is Ok && balances_unchanged(*old(st), *final(st))
            } else {
                r is Ok && balances_moved(*old(st), *final(st), f@, t@, id, amount)
            }),
        }),
{
    if amount == 0 {
        return Err(ContractError::InvalidZeroAmount);
    }
    let ghost pre = *st;
    if let Some(f) = from {
        match update_balance(st, f, id, amount, BalanceAction::Decrease) {
            Ok(_) => {},
            Err(e) => {
                return Err(e);
            },
        }
    }
    let ghost mid = *st;
    if let Some(t) = to {
        proof {
            match from {
                Some(f) => {
                    if f@ == t@ {
                        assert(mid.spec_balance(t@, id) == pre.spec_balance(f@, id) - amount);
                    } else {
                        assert(mid.spec_balance(t@, id) == pre.spec_balance(t@, id));
                    }
                },
                None => {},
            }
        }
        match update_balance(st, t, id, amount, BalanceAction::Increase) {
            Ok(_) => {},
            Err(e) => {
                return Err(e);
            },
        }
        proof {
            match from {
                Some(f) => {
                    lemma_nonzero_has_key(pre.balances@, f@, id);
                    if f@ == t@ {
                        assert(balances_unchanged(pre, *st));
                    } else {
                        assert(balances_moved(pre, *st, f@, t@, id, amount));
                    }
                },
                None => {},
            }
        }
    }
    Ok(())
}

/// Mints `amount` of token `id` to `to`. Only the minter may mint, the token
/// must exist, and the cap (if any) must not be exceeded.
pub fn mint(st: &mut State, sender: &String, to: &String, id: u64, amount: u128) -> (r: Result<
    (),
    ContractError,
>)
    requires
        old(st).wf(),
    ensures
        final(st).wf(),
        r is Err ==> *final(st) == *old(st),
        r == mint_check(*old(st), sender@, id, amount),
        r is Ok ==> mint_applied(*old(st), *final(st), to@, id, amount),
{
    if let Err(e) = assert_minter(st, sender) {
        return Err(e);
    }
    let ghost pre = *st;
    match increase_current_supply(st, id, amount) {
        Ok(_) => {},
        Err(e) => {
            return Err(e);
        },
    }
    let ghost mid = *st;
    proof {
        assert(mid.balances@ == pre.balances@);
        lemma_find_le_sum(pre.balances@, to@, id);
        assert(sum_for(pre.balances@, id) == pre.spec_token(id).current_supply);
        assert(mid.spec_balance(to@, id) + amount <= u128::MAX);
    }
    match exec_transfer(st, None, Some(to), id, amount) {
        Ok(_) => {},
        Err(e) => {
            return Err(e);
        },
    }
    proof {
        assert(balances_updated(pre, *st, to@, id, (pre.spec_balance(to@, id) + amount) as u128));
        assert forall|j: u64| 1 <= j <= st.registered_tokens implies sum_for(st.balances@, j) == (
        #[trigger] st.spec_token(j)).current_supply by {
            if j == id {
                assert(sum_for(st.balances@, id) == sum_for(mid.balances@, id) - mid.spec_balance(
                    to@,
                    id,
                ) + (mid.spec_balance(to@, id) + amount));
            } else {
                assert(st.spec_token(j) == pre.spec_token(j));
                assert(sum_for(st.balances@, j) == sum_for(mid.balances@, j));
            }
        }
    }
    Ok(())
}

/// Burns `amount` of token `id` from `from`'s balance. The caller must be
/// the holder or a currently approved operator.
pub fn burn(
    st: &mut State,
    block: &BlockInfo,
    sender: &String,
    from: &String,
    id: u64,
    amount: u128,
) -> (r: Result<(), ContractError>)
    requires
        old(st).wf(),
    ensures
        final(st).wf(),
        r is Err ==> *final(st) == *old(st),
        r == burn_check(*old(st), *block, sender@, from@, id, amount),
        r is Ok ==> burn_applied(*old(st), *final(st), from@, id, amount),
{
    if let Err(e) = assert_can_manage(st, block, from, sender) {
        return Err(e);
    }
    if amount == 0 {
        return Err(ContractError::InvalidZeroAmount);
    }
    if id < 1 || id > st.registered_tokens {
        return Err(ContractError::InvalidToken { id });
    }
    let n = st.tokens.len();
    let idx = (id - 1) as usize;
    proof {
        assert(n == old(st).registered_tokens);
        assert(idx as int == id - 1);
    }
    let t = st.tokens[idx];
    if t.current_supply < amount {
        return Err(
            ContractError::InsufficientFunds { id, required: amount, available: t.current_supply },
        );
    }
    let available = bal_lookup(&st.balances, from, id);
    if available < amount {
        return Err(ContractError::InsufficientFunds { id, required: amount, available });
    }
    let ghost pre = *st;
    match decrease_current_supply(st, id, amount) {
        Ok(_) => {},
        Err(e) => {
            return Err(e);
        },
    }
    let ghost mid = *st;
    match exec_transfer(st, Some(from), None, id, amount) {
        Ok(_) => {},
        Err(e) => {
            return Err(e);
        },
    }
    proof {
        assert(mid.balances@ == pre.balances@);
        assert(balances_updated(pre, *st, from@, id, (pre.spec_balance(from@, id) - amount) as u128));
        assert forall|j: u64| 1 <= j <= st.registered_tokens implies sum_for(st.balances@, j) == (
        #[trigger] st.spec_token(j)).current_supply by {
            if j == id {
                assert(sum_for(st.balances@, id) == sum_for(mid.balances@, id) - mid.spec_balance(
                    from@,
                    id,
                ) + (mid.spec_balance(from@, id) - amount));
            } else {
                assert(st.spec_token(j) == pre.spec_token(j));
                assert(sum_for(st.balances@, j) == sum_for(mid.balances@, j));
            }
        }
    }
    Ok(())
}

/// Transfers `amount` of token `id` from `from` to `to`. The caller must be
/// the holder or a currently approved operator, and the token must be
/// transferrable.
pub fn transfer_from(
    st: &mut State,
    block: &BlockInfo,
    sender: &String,
    from: &String,
    to: &String,
    id: u64,
    amount: u128,
) -> (r: Result<(), ContractError>)
    requires
        old(st).wf(),
    ensures
        final(st).wf(),
        r is Err ==> *final(st) == *old(st),
        r == transfer_check(*old(st), *block, sender@, from@, to@, id, amount),
        r is Ok ==> transfer_applied(*old(st), *final(st), from@, to@, id, amount),
{
    if let Err(e) = assert_can_manage(st, block, from, sender) {
        return Err(e);
    }
    if id < 1 || id > st.registered_tokens {
        return Err(ContractError::InvalidToken { id });
    }
    let n = st.tokens.len();
    let idx = (id - 1) as usize;
    proof {
        assert(n == old(st).registered_tokens);
        assert(idx as int == id - 1);
    }
    let t = st.tokens[idx];
    if !t.is_transferrable {
        return Err(ContractError::NotTransferable { id });
    }
    let ghost pre = *st;
    proof {
        if from@ != to@ {
            lemma_find_pair_le_sum(pre.balances@, from@, to@, id);
            assert(sum_for(pre.balances@, id) == pre.spec_token(id).current_supply);
        }
    }
    match exec_transfer(st, Some(from), Some(to), id, amount) {
        Ok(_) => {},
        Err(e) => {
            return Err(e);
        },
    }
    proof {
        assert forall|j: u64| 1 <= j <= st.registered_tokens implies sum_for(st.balances@, j) == (
        #[trigger] st.spec_token(j)).current_supply by {
            assert(sum_for(st.balances@, j) == sum_for(pre.balances@, j));
            assert(st.spec_token(j) == pre.spec_token(j));
        }
    }
    Ok(())
}

/// Grants `operator` the right to manage all of the sender's tokens until
/// `expiration` ("never" when omitted). An expiration that has already
/// passed is rejected and stores nothing.
pub fn approve_all(
    st: &mut State,
    block: &BlockInfo,
    sender: &String,
    operator: &String,
    expiration: Option<Expiration>,
) -> (r: Result<(), ContractError>)
    requires
        old(st).wf(),
    ensures
        final(st).wf(),
        r is Err ==> *final(st) == *old(st),
        r == (if spec_is_expired(effective_expiration(expiration), *block) {
            Err::<(), ContractError>(ContractError::Expired)
        } else {
            Ok::<(), ContractError>(())
        }),
        r is Ok ==> approve_applied(
            *old(st),
            *final(st),
            sender@,
            operator@,
            effective_expiration(expiration),
        ),
{
    let exp = match expiration {
        Some(e) => e,
        None => Expiration::Never,
    };
    if exp.is_expired(block) {
        return Err(ContractError::Expired);
    }
    appr_upsert(&mut st.approvals, sender, operator, exp);
    proof {
        assert forall|j: u64| 1 <= j <= st.registered_tokens implies sum_for(st.balances@, j) == (
        #[trigger] st.spec_token(j)).current_supply by {
            assert(st.spec_token(j) == old(st).spec_token(j));
            assert(sum_for(st.balances@, j) == sum_for(old(st).balances@, j));
        }
        assert forall|k: int| 0 <= k < st.tokens@.len() implies crate::state::token_wf(
            #[trigger] st.tokens@[k],
        ) by {
            assert(st.tokens@[k] == old(st).tokens@[k]);
        }
        assert forall|k: int| 0 <= k < st.balances@.len() implies 1 <= (
        #[trigger] st.balances@[k]).id <= st.registered_tokens by {
            assert(st.balances@[k] == old(st).balances@[k]);
        }
    }
    Ok(())
}

/// Revokes the sender's grant to `operator`; succeeds whether or not a
/// grant existed.
pub fn revoke_all(st: &mut State, sender: &String, operator: &String) -> (r: Result<
    (),
    ContractError,
>)
    requires
        old(st).wf(),
    ensures
        final(st).wf(),
        r == Ok::<(), ContractError>(()),
        revoke_applied(*old(st), *final(st), sender@, operator@),
{
    appr_remove(&mut st.approvals, sender, operator);
    proof {
        assert forall|j: u64| 1 <= j <= st.registered_tokens implies sum_for(st.balances@, j) == (
        #[trigger] st.spec_token(j)).current_supply by {
            assert(st.spec_token(j) == old(st).spec_token(j));
            assert(sum_for(st.balances@, j) == sum_for(old(st).balances@, j));
        }
        assert forall|k: int| 0 <= k < st.tokens@.len() implies crate::state::token_wf(
            #[trigger] st.tokens@[k],
        ) by {
            assert(st.tokens@[k] == old(st).tokens@[k]);
        }
        assert forall|k: int| 0 <= k < st.balances@.len() implies 1 <= (
        #[trigger] st.balances@[k]).id <= st.registered_tokens by {
            assert(st.balances@[k] == old(st).balances@[k]);
        }
    }
    Ok(())
}

/// Changes who may mint. Only the current minter may do this; setting the
/// minter to nothing disables minting for good.
pub fn set_minter(st: &mut State, sender: &String, minter: Option<String>) -> (r: Result<
    (),
    ContractError,
>)
    requires
        old(st).wf(),
    ensures
        final(st).wf(),
        r is Err ==> *final(st) == *old(st),
        r == minter_check(*old(st), sender@),
        r is Ok ==> set_minter_applied(*old(st), *final(st), minter),
{
    if let Err(e) = assert_minter(st, sender) {
        return Err(e);
    }
    st.config.minter = minter;
    proof {
        assert forall|j: u64| 1 <= j <= st.registered_tokens implies sum_for(st.balances@, j) == (
        #[trigger] st.spec_token(j)).current_supply by {
            assert(st.spec_token(j) == old(st).spec_token(j));
            assert(sum_for(st.balances@, j) == sum_for(old(st).balances@, j));
        }
        assert forall|k: int| 0 <= k < st.tokens@.len() implies crate::state::token_wf(
            #[trigger] st.tokens@[k],
        ) by {
            assert(st.tokens@[k] == old(st).tokens@[k]);
        }
        assert forall|k: int| 0 <= k < st.balances@.len() implies 1 <= (
        #[trigger] st.balances@[k]).id <= st.registered_tokens by {
            assert(st.balances@[k] == old(st).balances@[k]);
        }
    }
    Ok(())
}

/// Changes who may register tokens. Only the current owner may do this;
/// setting the owner to nothing disables registration for good.
pub fn set_owner(st: &mut State, sender: &String, owner: Option<String>) -> (r: Result<
    (),
    ContractError,
>)
    requires
        old(st).wf(),
    ensures
        final(st).wf(),
        r is Err ==> *final(st) == *old(st),
        r == owner_check(*old(st), sender@),
        r is Ok ==> set_owner_applied(*old(st), *final(st), owner),
{
    if let Err(e) = assert_owner(st, sender) {
        return Err(e);
    }
    st.config.owner = owner;
    proof {
        assert forall|j: u64| 1 <= j <= st.registered_tokens implies sum_for(st.balances@, j) == (
        #[trigger] st.spec_token(j)).current_supply by {
            assert(st.spec_token(j) == old(st).spec_token(j));
            assert(sum_for(st.balances@, j) == sum_for(old(st).balances@, j));
        }
        assert forall|k: int| 0 <= k < st.tokens@.len() implies crate::state::token_wf(
            #[trigger] st.tokens@[k],
        ) by {
            assert(st.tokens@[k] == old(st).tokens@[k]);
        }
        assert forall|k: int| 0 <= k < st.balances@.len() implies 1 <= (
        #[trigger] st.balances@[k]).id <= st.registered_tokens by {
            assert(st.balances@[k] == old(st).balances@[k]);
        }
    }
    Ok(())
}

/// Freezes a token's cap at `current_supply + burned`, so any further mint
/// for it fails. Only the minter may do this.
pub fn disable_token_minting(st: &mut State, sender: &String, id: u64) -> (r: Result<
    (),
    ContractError,
>)
    requires
        old(st).wf(),
    ensures
        final(st).wf(),
        r is Err ==> *final(st) == *old(st),
        r == disable_check(*old(st), sender@, id),
        r is Ok ==> disable_applied(*old(st), *final(st), id),
{
    if let Err(e) = assert_minter(st, sender) {
        return Err(e);
    }
    let ghost pre = *st;
    match update_max_supply(st, id) {
        Ok(_) => {},
        Err(e) => {
            return Err(e);
        },
    }
    proof {
        assert forall|j: u64| 1 <= j <= st.registered_tokens implies sum_for(st.balances@, j) == (
        #[trigger] st.spec_token(j)).current_supply by {
            assert(st.spec_token(j).current_supply == pre.spec_token(j).current_supply);
            assert(sum_for(st.balances@, j) == sum_for(pre.balances@, j));
        }
    }
    Ok(())
}

/// Renames the collection and replaces its description. Only the owner may
/// do this; the metadata URI never changes.
pub fn update_collection_details(
    st: &mut State,
    sender: &String,
    name: String,
    description: String,
) -> (r: Result<(), ContractError>)
    requires
        old(st).wf(),
    ensures
        final(st).wf(),
        r is Err ==> *final(st) == *old(st),
        r == owner_check(*old(st), sender@),
        r is Ok ==> details_applied(*old(st), *final(st), name, description),
{
    if let Err(e) = assert_owner(st, sender) {
        return Err(e);
    }
    st.config.name = name;
    st.config.description = description;
    proof {
        assert forall|j: u64| 1 <= j <= st.registered_tokens implies sum_for(st.balances@, j) == (
        #[trigger] st.spec_token(j)).current_supply by {
            assert(st.spec_token(j) == old(st).spec_token(j));
            assert(sum_for(st.balances@, j) == sum_for(old(st).balances@, j));
        }
        assert forall|k: int| 0 <= k < st.tokens@.len() implies crate::state::token_wf(
            #[trigger] st.tokens@[k],
        ) by {
            assert(st.tokens@[k] == old(st).tokens@[k]);
        }
        assert forall|k: int| 0 <= k < st.balances@.len() implies 1 <= (
        #[trigger] st.balances@[k]).id <= st.registered_tokens by {
            assert(st.balances@[k] == old(st).balances@[k]);
        }
    }
    Ok(())
}

} // verus!
