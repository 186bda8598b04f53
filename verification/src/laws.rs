//! The ledger's global laws, stated once over the state model and the
//! transition relations that the operations ensure.

use vstd::prelude::*;

use crate::execute::{burn_applied, mint_applied, transfer_applied};
use crate::state::{sum_for, token_wf, State};

verus! {

/// For a registered token with a cap, the outstanding supply plus the
/// burned total never exceeds the cap. Every operation preserves
/// well-formedness, so this holds after every mutation.
pub proof fn lemma_supply_within_cap(st: State, id: u64, m: u128)
    requires
        st.wf(),
        st.spec_registered(id),
        st.spec_token(id).max_supply == Some(m),
    ensures
        st.spec_token(id).current_supply + st.spec_token(id).burned <= m,
{
    assert(token_wf(st.tokens@[id - 1]));
}

/// For every registered token, the balances held across all owners add up
/// to exactly its outstanding supply.
pub proof fn lemma_balances_match_supply(st: State, id: u64)
    requires
        st.wf(),
        st.spec_registered(id),
    ensures
        sum_for(st.balances@, id) == st.spec_token(id).current_supply,
{
}

/// Minting an amount and then burning the same amount of the same token
/// returns the outstanding supply to its pre-mint value, while the burned
/// total grows by exactly that amount — it never decreases.
pub proof fn lemma_mint_burn_round_trip(
    s0: State,
    s1: State,
    s2: State,
    to: Seq<char>,
    from: Seq<char>,
    id: u64,
    amount: u128,
)
    requires
        s0.wf(),
        mint_applied(s0, s1, to, id, amount),
        burn_applied(s1, s2, from, id, amount),
    ensures
        s2.spec_token(id).current_supply == s0.spec_token(id).current_supply,
        s2.spec_token(id).burned == s0.spec_token(id).burned + amount,
{
    assert(s0.tokens@.len() == s0.registered_tokens);
    crate::state::lemma_tokens_updated(
        s0,
        s1,
        id,
        crate::state::TokenInfo {
            is_transferrable: s0.spec_token(id).is_transferrable,
            max_supply: s0.spec_token(id).max_supply,
            burned: s0.spec_token(id).burned,
            current_supply: (s0.spec_token(id).current_supply + amount) as u128,
        },
    );
    crate::state::lemma_tokens_updated(
        s1,
        s2,
        id,
        crate::state::TokenInfo {
            is_transferrable: s1.spec_token(id).is_transferrable,
            max_supply: s1.spec_token(id).max_supply,
            burned: (s1.spec_token(id).burned + amount) as u128,
            current_supply: (s1.spec_token(id).current_supply - amount) as u128,
        },
    );
}

/// A transfer followed by the reverse transfer of the same amount restores
/// both owners' balances, and no other balance was ever touched.
pub proof fn lemma_transfer_round_trip(
    s0: State,
    s1: State,
    s2: State,
    from: Seq<char>,
    to: Seq<char>,
    id: u64,
    amount: u128,
)
    requires
        transfer_applied(s0, s1, from, to, id, amount),
        transfer_applied(s1, s2, to, from, id, amount),
    ensures
        s2.spec_balance(from, id) == s0.spec_balance(from, id),
        s2.spec_balance(to, id) == s0.spec_balance(to, id),
        forall|o: Seq<char>, i: u64|
            !(o == from && i == id) && !(o == to && i == id) ==> #[trigger] s2.spec_balance(o, i)
                == s0.spec_balance(o, i),
{
    if from != to {
        assert forall|o: Seq<char>, i: u64|
            !(o == from && i == id) && !(o == to && i == id) implies #[trigger] s2.spec_balance(
            o,
            i,
        ) == s0.spec_balance(o, i) by {
            assert(s1.spec_balance(o, i) == s0.spec_balance(o, i));
        }
    }
}

} // verus!
