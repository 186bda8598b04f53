//! The ledger state and its mathematical model.
//!
//! The whole ledger is one explicit value: the collection configuration, the
//! token catalog (ids are allocated consecutively from 1, so the catalog is a
//! vector indexed by `id - 1`), the per-(owner, token) balances and the
//! per-(owner, operator) grants. Balances and grants are kept strictly sorted
//! by key, which gives both uniqueness and the ascending order the paginated
//! queries return.

use vstd::prelude::*;

use crate::lexord::lex_lt;

verus! {

/// The logical clock a call executes under; expirations are compared
/// against it and it is never advanced by the ledger.
#[derive(Clone, Copy, Debug)]
pub struct BlockInfo {
    pub height: u64,
    pub time: u64,
}

/// A point in logical time after which a grant no longer authorizes.
#[derive(Clone, Copy, Debug, PartialEq, Eq)]
pub enum Expiration {
    AtHeight(u64),
    AtTime(u64),
    Never,
}

pub open spec fn spec_is_expired(e: Expiration, b: BlockInfo) -> bool {
    match e {
        Expiration::AtHeight(h) => b.height >= h,
        Expiration::AtTime(t) => b.time >= t,
        Expiration::Never => false,
    }
}

impl Expiration {
    pub fn is_expired(&self, b: &BlockInfo) -> (r: bool)
        ensures
            r == spec_is_expired(*self, *b),
    {
        match self {
            Expiration::AtHeight(h) => b.height >= *h,
            Expiration::AtTime(t) => b.time >= *t,
            Expiration::Never => false,
        }
    }
}

/// Collection-wide configuration.
#[derive(Debug)]
pub struct Config {
    /// Base URI for metadata; immutable after initialization.
    pub metadata_uri: String,
    /// The only identity allowed to mint; `None` disables minting for good.
    pub minter: Option<String>,
    /// The only identity allowed to register tokens; `None` disables
    /// registration for good.
    pub owner: Option<String>,
    /// A human-readable title for the collection.
    pub name: String,
    /// A description for the collection.
    pub description: String,
}

/// Per-token bookkeeping.
#[derive(Clone, Copy, Debug, PartialEq, Eq)]
pub struct TokenInfo {
    /// Whether the token can be transferred after minting.
    pub is_transferrable: bool,
    /// Optional ceiling on `current_supply + burned`; `None` means uncapped.
    pub max_supply: Option<u128>,
    /// Cumulative amount burned; never decreases.
    pub burned: u128,
    /// Outstanding minted-and-not-burned amount.
    pub current_supply: u128,
}

/// One balance row: how much of token `id` the owner holds.
#[derive(Debug, PartialEq, Eq)]
pub struct Balance {
    pub owner: String,
    pub id: u64,
    pub amount: u128,
}

impl Clone for Balance {
    fn clone(&self) -> (r: Self)
        ensures
            r == *self,
    {
        Balance { owner: self.owner.clone(), id: self.id, amount: self.amount }
    }
}

/// One grant row: `operator` may act for `owner` until `expiration`.
#[derive(Debug, PartialEq, Eq)]
pub struct Approval {
    pub owner: String,
    pub operator: String,
    pub expiration: Expiration,
}

impl Clone for Approval {
    fn clone(&self) -> (r: Self)
        ensures
            r == *self,
    {
        Approval {
            owner: self.owner.clone(),
            operator: self.operator.clone(),
            expiration: self.expiration,
        }
    }
}

/// The whole ledger.
#[derive(Debug)]
pub struct State {
    pub config: Config,
    /// Number of registered tokens; ids run from 1 to this count.
    pub registered_tokens: u64,
    /// Catalog entry for token id `i + 1` sits at index `i`.
    pub tokens: Vec<TokenInfo>,
    /// Balance rows, strictly sorted by (owner, id).
    pub balances: Vec<Balance>,
    /// Grant rows, strictly sorted by (owner, operator).
    pub approvals: Vec<Approval>,
}

// ---------------------------------------------------------------------------
// The specification model: lookups, sums, and orderings over the rows.
// ---------------------------------------------------------------------------

/// A balance row's key sits strictly before the key (o, id):
/// owner first, token id second.
pub open spec fn bal_below(x: Balance, o: Seq<char>, id: u64) -> bool {
    lex_lt(x.owner@, o) || (x.owner@ == o && x.id < id)
}

/// A balance row's key sits strictly after the key (o, id).
pub open spec fn bal_above(x: Balance, o: Seq<char>, id: u64) -> bool {
    lex_lt(o, x.owner@) || (x.owner@ == o && id < x.id)
}

/// Strict order on balance keys: owner first, token id second.
pub open spec fn bal_key_lt(x: Balance, y: Balance) -> bool {
    bal_below(x, y.owner@, y.id)
}

/// A grant row's key sits strictly before the key (o, op):
/// owner first, operator second.
pub open spec fn appr_below(x: Approval, o: Seq<char>, op: Seq<char>) -> bool {
    lex_lt(x.owner@, o) || (x.owner@ == o && lex_lt(x.operator@, op))
}

/// A grant row's key sits strictly after the key (o, op).
pub open spec fn appr_above(x: Approval, o: Seq<char>, op: Seq<char>) -> bool {
    lex_lt(o, x.owner@) || (x.owner@ == o && lex_lt(op, x.operator@))
}

/// Strict order on grant keys: owner first, operator second.
pub open spec fn appr_key_lt(x: Approval, y: Approval) -> bool {
    appr_below(x, y.owner@, y.operator@)
}

pub open spec fn bals_sorted(s: Seq<Balance>) -> bool {
    forall|i: int, j: int| 0 <= i < j < s.len() ==> bal_key_lt(s[i], s[j])
}

pub open spec fn apprs_sorted(s: Seq<Approval>) -> bool {
    forall|i: int, j: int| 0 <= i < j < s.len() ==> appr_key_lt(s[i], s[j])
}

/// The amount held by `owner` for token `id`; 0 when no row exists.
pub open spec fn find_bal(s: Seq<Balance>, owner: Seq<char>, id: u64) -> u128
    decreases s.len(),
{
    if s.len() == 0 {
        0
    } else if s[0].owner@ == owner && s[0].id == id {
        s[0].amount
    } else {
        find_bal(s.skip(1), owner, id)
    }
}

/// Whether a row for (owner, id) exists at all (even with amount 0).
pub open spec fn bal_has_key(s: Seq<Balance>, owner: Seq<char>, id: u64) -> bool
    decreases s.len(),
{
    if s.len() == 0 {
        false
    } else if s[0].owner@ == owner && s[0].id == id {
        true
    } else {
        bal_has_key(s.skip(1), owner, id)
    }
}

/// The total amount of token `id` held across all owners.
pub open spec fn sum_for(s: Seq<Balance>, id: u64) -> int
    decreases s.len(),
{
    if s.len() == 0 {
        0
    } else {
        (if s[0].id == id {
            s[0].amount as int
        } else {
            0
        }) + sum_for(s.skip(1), id)
    }
}

/// The grant for (owner, operator), if a row exists.
pub open spec fn find_appr(s: Seq<Approval>, owner: Seq<char>, operator: Seq<char>) -> Option<
    Expiration,
>
    decreases s.len(),
{
    if s.len() == 0 {
        None
    } else if s[0].owner@ == owner && s[0].operator@ == operator {
        Some(s[0].expiration)
    } else {
        find_appr(s.skip(1), owner, operator)
    }
}

/// A single catalog entry is internally consistent: the running totals never
/// exceed the machine range, nor the cap when one is set.
pub open spec fn token_wf(t: TokenInfo) -> bool {
    &&& t.current_supply + t.burned <= u128::MAX
    &&& (t.max_supply matches Some(m) ==> t.current_supply + t.burned <= m)
}

impl State {
    /// Token ids run from 1 to the registration counter.
    pub open spec fn spec_registered(self, id: u64) -> bool {
        1 <= id <= self.registered_tokens
    }

    pub open spec fn spec_token(self, id: u64) -> TokenInfo
        recommends
            self.spec_registered(id),
    {
        self.tokens@[id - 1]
    }

    pub open spec fn spec_balance(self, owner: Seq<char>, id: u64) -> u128 {
        find_bal(self.balances@, owner, id)
    }

    pub open spec fn spec_approval(self, owner: Seq<char>, operator: Seq<char>) -> Option<
        Expiration,
    > {
        find_appr(self.approvals@, owner, operator)
    }

    /// Structural well-formedness, without the supply/balance accounting tie.
    pub open spec fn wf_base(self) -> bool {
        &&& self.tokens@.len() == self.registered_tokens
        &&& (forall|k: int| 0 <= k < self.tokens@.len() ==> token_wf(#[trigger] self.tokens@[k]))
        &&& bals_sorted(self.balances@)
        &&& (forall|k: int|
            0 <= k < self.balances@.len() ==> 1 <= (#[trigger] self.balances@[k]).id
                <= self.registered_tokens)
        &&& apprs_sorted(self.approvals@)
    }

    /// For every registered token, the balance rows add up to exactly the
    /// outstanding supply.
    pub open spec fn sums_ok(self) -> bool {
        forall|id: u64|
            1 <= id <= self.registered_tokens ==> sum_for(self.balances@, id) == (
            #[trigger] self.spec_token(id)).current_supply
    }

    /// Full well-formedness: every operation preserves this.
    pub open spec fn wf(self) -> bool {
        self.wf_base() && self.sums_ok()
    }
}

/// Two states with the same catalog agree on every catalog entry.
pub proof fn lemma_tokens_preserved(pre: State, post: State)
    requires
        post.tokens@ == pre.tokens@,
        post.registered_tokens == pre.registered_tokens,
    ensures
        forall|j: u64|
            1 <= j <= pre.registered_tokens ==> #[trigger] post.spec_token(j) == pre.spec_token(j),
{
    assert forall|j: u64| 1 <= j <= pre.registered_tokens implies #[trigger] post.spec_token(j)
        == pre.spec_token(j) by {
        assert(post.tokens@[j - 1] == pre.tokens@[j - 1]);
    }
}

/// After a point update of the catalog, only that entry changed.
pub proof fn lemma_tokens_updated(pre: State, post: State, id: u64, t: TokenInfo)
    requires
        pre.spec_registered(id),
        pre.tokens@.len() == pre.registered_tokens,
        post.tokens@ == pre.tokens@.update(id - 1, t),
        post.registered_tokens == pre.registered_tokens,
    ensures
        post.spec_token(id) == t,
        forall|j: u64|
            1 <= j <= pre.registered_tokens && j != id ==> #[trigger] post.spec_token(j)
                == pre.spec_token(j),
{
    assert forall|j: u64| 1 <= j <= pre.registered_tokens && j != id implies #[trigger] post.spec_token(
        j,
    ) == pre.spec_token(j) by {
        assert(post.tokens@[j - 1] == pre.tokens@[j - 1]);
    }
}

/// After appending one catalog entry, the new id maps to it and the old
/// entries are untouched.
pub proof fn lemma_tokens_pushed(pre: State, post: State, t: TokenInfo)
    requires
        pre.tokens@.len() == pre.registered_tokens,
        pre.registered_tokens < u64::MAX,
        post.tokens@ == pre.tokens@.push(t),
        post.registered_tokens == pre.registered_tokens + 1,
    ensures
        post.spec_token((pre.registered_tokens + 1) as u64) == t,
        forall|j: u64|
            1 <= j <= pre.registered_tokens ==> #[trigger] post.spec_token(j) == pre.spec_token(j),
{
    assert forall|j: u64| 1 <= j <= pre.registered_tokens implies #[trigger] post.spec_token(j)
        == pre.spec_token(j) by {
        assert(post.tokens@[j - 1] == pre.tokens@[j - 1]);
    }
}

/// How a state's balance rows relate to their prior value after the row
/// (owner, id) was set to `new_amount`: that row now exists and holds
/// `new_amount`, every other row is untouched, and the per-token totals moved
/// accordingly.
pub open spec fn balances_updated(
    pre: State,
    post: State,
    owner: Seq<char>,
    id: u64,
    new_amount: u128,
) -> bool {
    &&& post.spec_balance(owner, id) == new_amount
    &&& bal_has_key(post.balances@, owner, id)
    &&& (forall|o: Seq<char>, i: u64|
        !(o == owner && i == id) ==> #[trigger] post.spec_balance(o, i) == pre.spec_balance(o, i))
    &&& (forall|o: Seq<char>, i: u64|
        !(o == owner && i == id) ==> #[trigger] bal_has_key(post.balances@, o, i) == bal_has_key(
            pre.balances@,
            o,
            i,
        ))
    &&& sum_for(post.balances@, id) == sum_for(pre.balances@, id) - pre.spec_balance(owner, id)
        + new_amount
    &&& (forall|i: u64|
        i != id ==> #[trigger] sum_for(post.balances@, i) == sum_for(pre.balances@, i))
    &&& post.balances@.len() == pre.balances@.len() + (if bal_has_key(pre.balances@, owner, id) {
        0int
    } else {
        1int
    })
}

} // verus!
