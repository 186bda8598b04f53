//! The read-only query surface: point lookups and paginated enumeration
//! over the sorted row vectors.
//!
//! Every list query takes an optional exclusive-start cursor and an optional
//! limit clamped to `[1, MAX_LIMIT]`, with `DEFAULT_LIMIT` applied when the
//! limit is omitted, and returns rows in ascending key order.

use vstd::prelude::*;

use crate::error::ContractError;
use crate::lexord::{lex_lt, str_lt};
use crate::msg::{ConfigResponse, TokenInfoResponse};
use crate::rows::{appr_lookup, bal_lookup};
use crate::state::{Approval, Balance, Expiration, State, TokenInfo};

verus! {

pub const DEFAULT_LIMIT: u32 = 10;

pub const MAX_LIMIT: u32 = 50;

/// The limit actually applied: the default when omitted, and never outside
/// `[1, MAX_LIMIT]`.
pub open spec fn effective_limit(limit: Option<u32>) -> nat {
    let l = match limit {
        Some(x) => x,
        None => DEFAULT_LIMIT,
    };
    if l < 1 {
        1nat
    } else if l > MAX_LIMIT {
        MAX_LIMIT as nat
    } else {
        l as nat
    }
}

pub open spec fn opt_str_view(o: Option<String>) -> Option<Seq<char>> {
    match o {
        Some(s) => Some(s@),
        None => None,
    }
}

/// The first `limit` rows satisfying `pred`, in their stored order.
pub open spec fn page_bal(s: Seq<Balance>, pred: spec_fn(Balance) -> bool, limit: nat) -> Seq<
    Balance,
>
    decreases s.len(),
{
    if s.len() == 0 || limit == 0 {
        Seq::empty()
    } else if pred(s[0]) {
        seq![s[0]] + page_bal(s.skip(1), pred, (limit - 1) as nat)
    } else {
        page_bal(s.skip(1), pred, limit)
    }
}

/// The first `limit` grant rows satisfying `pred`, in their stored order.
pub open spec fn page_appr(s: Seq<Approval>, pred: spec_fn(Approval) -> bool, limit: nat) -> Seq<
    Approval,
>
    decreases s.len(),
{
    if s.len() == 0 || limit == 0 {
        Seq::empty()
    } else if pred(s[0]) {
        seq![s[0]] + page_appr(s.skip(1), pred, (limit - 1) as nat)
    } else {
        page_appr(s.skip(1), pred, limit)
    }
}

/// Rows of one owner, past the id cursor.
pub open spec fn bal_by_owner_pred(owner: Seq<char>, start_after: Option<u64>) -> spec_fn(
    Balance,
) -> bool {
    |b: Balance|
        b.owner@ == owner && (match start_after {
            Some(c) => b.id > c,
            None => true,
        })
}

/// Rows of one token, past the owner cursor.
pub open spec fn bal_by_id_pred(id: u64, start_after: Option<Seq<char>>) -> spec_fn(
    Balance,
) -> bool {
    |b: Balance|
        b.id == id && (match start_after {
            Some(c) => lex_lt(c, b.owner@),
            None => true,
        })
}

/// Grants of one owner, past the operator cursor.
pub open spec fn appr_by_owner_pred(owner: Seq<char>, start_after: Option<Seq<char>>) -> spec_fn(
    Approval,
) -> bool {
    |a: Approval|
        a.owner@ == owner && (match start_after {
            Some(c) => lex_lt(c, a.operator@),
            None => true,
        })
}

/// Grants of one operator, past the owner cursor.
pub open spec fn appr_by_operator_pred(
    operator: Seq<char>,
    start_after: Option<Seq<char>>,
) -> spec_fn(Approval) -> bool {
    |a: Approval|
        a.operator@ == operator && (match start_after {
            Some(c) => lex_lt(c, a.owner@),
            None => true,
        })
}

fn clamp_limit(limit: Option<u32>) -> (r: usize)
    ensures
        r == effective_limit(limit),
{
    let l = match limit {
        Some(x) => x,
        None => DEFAULT_LIMIT,
    };
    let l = if l < 1 {
        1
    } else if l > MAX_LIMIT {
        MAX_LIMIT
    } else {
        l
    };
    l as usize
}

fn clone_opt_string(o: &Option<String>) -> (r: Option<String>)
    ensures
        r == *o,
{
    match o {
        Some(s) => Some(s.clone()),
        None => None,
    }
}

/// The collection configuration together with the registration count.
pub fn query_config(st: &State) -> (r: ConfigResponse)
    ensures
        r.registered_tokens == st.registered_tokens,
        r.metadata_uri == st.config.metadata_uri,
        r.minter == st.config.minter,
        r.owner == st.config.owner,
        r.name == st.config.name,
        r.description == st.config.description,
{
    ConfigResponse {
        registered_tokens: st.registered_tokens,
        metadata_uri: st.config.metadata_uri.clone(),
        minter: clone_opt_string(&st.config.minter),
        owner: clone_opt_string(&st.config.owner),
        name: st.config.name.clone(),
        description: st.config.description.clone(),
    }
}

/// The catalog entry of one token; unregistered ids are an error.
pub fn query_token_info(st: &State, id: u64) -> (r: Result<TokenInfo, ContractError>)
    requires
        st.wf(),
    ensures
        r == (if st.spec_registered(id) {
            Ok::<TokenInfo, ContractError>(st.spec_token(id))
        } else {
            Err::<TokenInfo, ContractError>(ContractError::InvalidToken { id })
        }),
{
    if id < 1 || id > st.registered_tokens {
        return Err(ContractError::InvalidToken { id });
    }
    let n = st.tokens.len();
    let idx = (id - 1) as usize;
    proof {
        assert(n == st.registered_tokens);
        assert(idx as int == id - 1);
    }
    Ok(st.tokens[idx])
}

/// The id the token page starts at (one past the cursor).
pub open spec fn tokens_page_start(start_after: Option<u64>) -> int {
    (match start_after {
        Some(c) => c as int,
        None => 0int,
    }) + 1
}

/// How many catalog entries the token page holds.
pub open spec fn tokens_page_len(st: State, start_after: Option<u64>, limit: Option<u32>) -> int {
    let first = tokens_page_start(start_after);
    let avail = if first > st.registered_tokens {
        0int
    } else {
        st.registered_tokens - first + 1
    };
    if effective_limit(limit) < avail {
        effective_limit(limit) as int
    } else {
        avail
    }
}

/// A page of catalog entries in ascending id order, starting after the
/// cursor.
pub fn query_tokens_info(st: &State, start_after: Option<u64>, limit: Option<u32>) -> (r: Vec<
    TokenInfoResponse,
>)
    requires
        st.wf(),
    ensures
        r@.len() == tokens_page_len(*st, start_after, limit),
        forall|k: int|
            0 <= k < r@.len() ==> (#[trigger] r@[k]).id == tokens_page_start(start_after) + k
                && r@[k].info == st.spec_token((tokens_page_start(start_after) + k) as u64),
{
    let lim = clamp_limit(limit);
    let start = match start_after {
        Some(c) => c,
        None => 0,
    };
    let mut out: Vec<TokenInfoResponse> = Vec::new();
    if start >= st.registered_tokens {
        return out;
    }
    let mut k: u64 = 0;
    while k < (lim as u64) && k < st.registered_tokens - start
        invariant
            st.wf(),
            start < st.registered_tokens,
            k <= st.registered_tokens - start,
            k <= lim as u64,
            lim == effective_limit(limit),
            out@.len() == k,
            forall|j: int|
                0 <= j < k ==> (#[trigger] out@[j]).id == start + 1 + j && out@[j].info
                    == st.spec_token((start + 1 + j) as u64),
        decreases (lim as int) - k,
    {
        let id = start + 1 + k;
        let n = st.tokens.len();
        let idx = (id - 1) as usize;
        proof {
            assert(n == st.registered_tokens);
            assert(idx as int == id - 1);
        }
        out.push(TokenInfoResponse { id, info: st.tokens[idx] });
        k = k + 1;
    }
    out
}

/// The balance of one owner for one token; unregistered ids are an error.
pub fn query_balance(st: &State, owner: &String, id: u64) -> (r: Result<u128, ContractError>)
    ensures
        r == (if st.spec_registered(id) {
            Ok::<u128, ContractError>(st.spec_balance(owner@, id))
        } else {
            Err::<u128, ContractError>(ContractError::InvalidToken { id })
        }),
{
    if id < 1 || id > st.registered_tokens {
        return Err(ContractError::InvalidToken { id });
    }
    Ok(bal_lookup(&st.balances, owner, id))
}

/// The balances of one owner for each requested token id, failing on the
/// first id past the registration counter.
pub fn query_batch_balance(st: &State, owner: &String, ids: &Vec<u64>) -> (r: Result<
    Vec<u128>,
    ContractError,
>)
    ensures
        r is Ok <==> (forall|k: int|
            0 <= k < ids@.len() ==> #[trigger] ids@[k] <= st.registered_tokens),
        r matches Ok(v) ==> v@.len() == ids@.len() && (forall|k: int|
            0 <= k < ids@.len() ==> v@[k] == st.spec_balance(owner@, #[trigger] ids@[k])),
        r matches Err(e) ==> (exists|k: int|
            0 <= k < ids@.len() && #[trigger] ids@[k] > st.registered_tokens && e
                == (ContractError::InvalidToken { id: ids@[k] }) && (forall|j: int|
                0 <= j < k ==> ids@[j] <= st.registered_tokens)),
{
    let mut out: Vec<u128> = Vec::new();
    let mut i: usize = 0;
    while i < ids.len()
        invariant
            i <= ids@.len(),
            out@.len() == i,
            forall|j: int| 0 <= j < i ==> #[trigger] ids@[j] <= st.registered_tokens,
            forall|j: int| 0 <= j < i ==> out@[j] == st.spec_balance(owner@, #[trigger] ids@[j]),
        decreases ids@.len() - i,
    {
        let id = ids[i];
        if id > st.registered_tokens {
            return Err(ContractError::InvalidToken { id });
        }
        out.push(bal_lookup(&st.balances, owner, id));
        i = i + 1;
    }
    Ok(out)
}

/// The stored grant for the pair, raw: an expired grant is still returned
/// until it is revoked or replaced.
pub fn query_approved_for_all(st: &State, owner: &String, operator: &String) -> (r: Option<
    Expiration,
>)
    ensures
        r == st.spec_approval(owner@, operator@),
{
    appr_lookup(&st.approvals, owner, operator)
}

/// A page of one owner's balances in ascending token id order.
pub fn query_balances_by_owner(
    st: &State,
    owner: &String,
    start_after: Option<u64>,
    limit: Option<u32>,
) -> (r: Vec<Balance>)
    ensures
        r@ == page_bal(st.balances@, bal_by_owner_pred(owner@, start_after), effective_limit(limit)),
{
    let ghost pred = bal_by_owner_pred(owner@, start_after);
    let lim = clamp_limit(limit);
    let mut out: Vec<Balance> = Vec::new();
    let mut i: usize = 0;
    proof {
        assert(st.balances@.skip(0) =~= st.balances@);
    }
    while i < st.balances.len() && out.len() < lim
        invariant
            i <= st.balances@.len(),
            out@.len() <= lim,
            lim == effective_limit(limit),
            page_bal(st.balances@, pred, effective_limit(limit)) == out@ + page_bal(
                st.balances@.skip(i as int),
                pred,
                (effective_limit(limit) - out@.len()) as nat,
            ),
            pred == bal_by_owner_pred(owner@, start_after),
        decreases st.balances@.len() - i,
    {
        let ghost rem = (effective_limit(limit) - out@.len()) as nat;
        let ghost out0 = out@;
        proof {
            assert(st.balances@.skip(i as int)[0] == st.balances@[i as int]);
            assert(st.balances@.skip(i as int).skip(1) =~= st.balances@.skip(i as int + 1));
        }
        let x = &st.balances[i];
        let keep = x.owner == *owner && (match start_after {
            Some(c) => x.id > c,
            None => true,
        });
        if keep {
            proof {
                assert(pred(st.balances@[i as int]));
            }
            out.push(x.clone());
            proof {
                assert(out@ =~= out0 + seq![st.balances@[i as int]]);
                assert((out0 + seq![st.balances@[i as int]]) + page_bal(
                    st.balances@.skip(i as int + 1),
                    pred,
                    (rem - 1) as nat,
                ) =~= out0 + (seq![st.balances@[i as int]] + page_bal(
                    st.balances@.skip(i as int + 1),
                    pred,
                    (rem - 1) as nat,
                )));
            }
        } else {
            proof {
                assert(!pred(st.balances@[i as int]));
            }
        }
        i = i + 1;
    }
    proof {
        if i == st.balances@.len() {
            assert(st.balances@.skip(i as int).len() == 0);
        }
    }
    out
}

/// A page of one token's balances in ascending owner order.
pub fn query_balances_by_id(
    st: &State,
    id: u64,
    start_after: Option<String>,
    limit: Option<u32>,
) -> (r: Vec<Balance>)
    ensures
        r@ == page_bal(
            st.balances@,
            bal_by_id_pred(id, opt_str_view(start_after)),
            effective_limit(limit),
        ),
{
    let ghost pred = bal_by_id_pred(id, opt_str_view(start_after));
    let lim = clamp_limit(limit);
    let mut out: Vec<Balance> = Vec::new();
    let mut i: usize = 0;
    proof {
        assert(st.balances@.skip(0) =~= st.balances@);
    }
    while i < st.balances.len() && out.len() < lim
        invariant
            i <= st.balances@.len(),
            out@.len() <= lim,
            lim == effective_limit(limit),
            page_bal(st.balances@, pred, effective_limit(limit)) == out@ + page_bal(
                st.balances@.skip(i as int),
                pred,
                (effective_limit(limit) - out@.len()) as nat,
            ),
            pred == bal_by_id_pred(id, opt_str_view(start_after)),
        decreases st.balances@.len() - i,
    {
        let ghost rem = (effective_limit(limit) - out@.len()) as nat;
        let ghost out0 = out@;
        proof {
            assert(st.balances@.skip(i as int)[0] == st.balances@[i as int]);
            assert(st.balances@.skip(i as int).skip(1) =~= st.balances@.skip(i as int + 1));
        }
        let x = &st.balances[i];
        let keep = x.id == id && (match &start_after {
            Some(c) => str_lt(c.as_str(), x.owner.as_str()),
            None => true,
        });
        if keep {
            proof {
                assert(pred(st.balances@[i as int]));
            }
            out.push(x.clone());
            proof {
                assert(out@ =~= out0 + seq![st.balances@[i as int]]);
                assert((out0 + seq![st.balances@[i as int]]) + page_bal(
                    st.balances@.skip(i as int + 1),
                    pred,
                    (rem - 1) as nat,
                ) =~= out0 + (seq![st.balances@[i as int]] + page_bal(
                    st.balances@.skip(i as int + 1),
                    pred,
                    (rem - 1) as nat,
                )));
            }
        } else {
            proof {
                assert(!pred(st.balances@[i as int]));
            }
        }
        i = i + 1;
    }
    proof {
        if i == st.balances@.len() {
            assert(st.balances@.skip(i as int).len() == 0);
        }
    }
    out
}

/// A page of one owner's grants in ascending operator order.
pub fn query_approvals_by_owner(
    st: &State,
    owner: &String,
    start_after: Option<String>,
    limit: Option<u32>,
) -> (r: Vec<Approval>)
    ensures
        r@ == page_appr(
            st.approvals@,
            appr_by_owner_pred(owner@, opt_str_view(start_after)),
            effective_limit(limit),
        ),
{
    let ghost pred = appr_by_owner_pred(owner@, opt_str_view(start_after));
    let lim = clamp_limit(limit);
    let mut out: Vec<Approval> = Vec::new();
    let mut i: usize = 0;
    proof {
        assert(st.approvals@.skip(0) =~= st.approvals@);
    }
    while i < st.approvals.len() && out.len() < lim
        invariant
            i <= st.approvals@.len(),
            out@.len() <= lim,
            lim == effective_limit(limit),
            page_appr(st.approvals@, pred, effective_limit(limit)) == out@ + page_appr(
                st.approvals@.skip(i as int),
                pred,
                (effective_limit(limit) - out@.len()) as nat,
            ),
            pred == appr_by_owner_pred(owner@, opt_str_view(start_after)),
        decreases st.approvals@.len() - i,
    {
        let ghost rem = (effective_limit(limit) - out@.len()) as nat;
        let ghost out0 = out@;
        proof {
            assert(st.approvals@.skip(i as int)[0] == st.approvals@[i as int]);
            assert(st.approvals@.skip(i as int).skip(1) =~= st.approvals@.skip(i as int + 1));
        }
        let x = &st.approvals[i];
        let keep = x.owner == *owner && (match &start_after {
            Some(c) => str_lt(c.as_str(), x.operator.as_str()),
            None => true,
        });
        if keep {
            proof {
                assert(pred(st.approvals@[i as int]));
            }
            out.push(x.clone());
            proof {
                assert(out@ =~= out0 + seq![st.approvals@[i as int]]);
                assert((out0 + seq![st.approvals@[i as int]]) + page_appr(
                    st.approvals@.skip(i as int + 1),
                    pred,
                    (rem - 1) as nat,
                ) =~= out0 + (seq![st.approvals@[i as int]] + page_appr(
                    st.approvals@.skip(i as int + 1),
                    pred,
                    (rem - 1) as nat,
                )));
            }
        } else {
            proof {
                assert(!pred(st.approvals@[i as int]));
            }
        }
        i = i + 1;
    }
    proof {
        if i == st.approvals@.len() {
            assert(st.approvals@.skip(i as int).len() == 0);
        }
    }
    out
}

/// A page of one operator's grants in ascending owner order.
pub fn query_approvals_by_operator(
    st: &State,
    operator: &String,
    start_after: Option<String>,
    limit: Option<u32>,
) -> (r: Vec<Approval>)
    ensures
        r@ == page_appr(
            st.approvals@,
            appr_by_operator_pred(operator@, opt_str_view(start_after)),
            effective_limit(limit),
        ),
{
    let ghost pred = appr_by_operator_pred(operator@, opt_str_view(start_after));
    let lim = clamp_limit(limit);
    let mut out: Vec<Approval> = Vec::new();
    let mut i: usize = 0;
    proof {
        assert(st.approvals@.skip(0) =~= st.approvals@);
    }
    while i < st.approvals.len() && out.len() < lim
        invariant
            i <= st.approvals@.len(),
            out@.len() <= lim,
            lim == effective_limit(limit),
            page_appr(st.approvals@, pred, effective_limit(limit)) == out@ + page_appr(
                st.approvals@.skip(i as int),
                pred,
                (effective_limit(limit) - out@.len()) as nat,
            ),
            pred == appr_by_operator_pred(operator@, opt_str_view(start_after)),
        decreases st.approvals@.len() - i,
    {
        let ghost rem = (effective_limit(limit) - out@.len()) as nat;
        let ghost out0 = out@;
        proof {
            assert(st.approvals@.skip(i as int)[0] == st.approvals@[i as int]);
            assert(st.approvals@.skip(i as int).skip(1) =~= st.approvals@.skip(i as int + 1));
        }
        let x = &st.approvals[i];
        let keep = x.operator == *operator && (match &start_after {
            Some(c) => str_lt(c.as_str(), x.owner.as_str()),
            None => true,
        });
        if keep {
            proof {
                assert(pred(st.approvals@[i as int]));
            }
            out.push(x.clone());
            proof {
                assert(out@ =~= out0 + seq![st.approvals@[i as int]]);
                assert((out0 + seq![st.approvals@[i as int]]) + page_appr(
                    st.approvals@.skip(i as int + 1),
                    pred,
                    (rem - 1) as nat,
                ) =~= out0 + (seq![st.approvals@[i as int]] + page_appr(
                    st.approvals@.skip(i as int + 1),
                    pred,
                    (rem - 1) as nat,
                )));
            }
        } else {
            proof {
                assert(!pred(st.approvals@[i as int]));
            }
        }
        i = i + 1;
    }
    proof {
        if i == st.approvals@.len() {
            assert(st.approvals@.skip(i as int).len() == 0);
        }
    }
    out
}

} // verus!
