//! Maintenance of the sorted row vectors: lookups, upserts and removals on
//! balances and grants, proved against the model in [`crate::state`].
//!
//! Both vectors are kept strictly sorted by key. The lemmas here decompose a
//! point update into "rows before the key / the key / rows after the key" and
//! carry the lookup and accounting functions across that decomposition.

use vstd::prelude::*;

use crate::lexord::{
    lemma_lex_asymmetric, lemma_lex_connex, lemma_lex_irreflexive, lemma_lex_transitive, str_lt,
};
use crate::state::{
    appr_above, appr_below, appr_key_lt, apprs_sorted, bal_above, bal_below, bal_has_key,
    bal_key_lt, bals_sorted, find_appr, find_bal, sum_for, Approval, Balance, Expiration,
};

verus! {

/// A token id occurs somewhere among the rows.
pub open spec fn bal_id_present(s: Seq<Balance>, id: u64) -> bool {
    exists|j: int| 0 <= j < s.len() && s[j].id == id
}

// ---------------------------------------------------------------------------
// Order facts on keys.
// ---------------------------------------------------------------------------

/// For any row and key, at most one of below / above / equal holds, and at
/// least one of them does.
pub proof fn lemma_bal_key_cases(x: Balance, o: Seq<char>, id: u64)
    ensures
        bal_below(x, o, id) || bal_above(x, o, id) || (x.owner@ == o && x.id == id),
        bal_below(x, o, id) ==> !bal_above(x, o, id) && !(x.owner@ == o && x.id == id),
        bal_above(x, o, id) ==> !(x.owner@ == o && x.id == id),
{
    lemma_lex_connex(x.owner@, o);
    lemma_lex_asymmetric(x.owner@, o);
    lemma_lex_irreflexive(x.owner@);
    lemma_lex_irreflexive(o);
}

pub proof fn lemma_appr_key_cases(x: Approval, o: Seq<char>, op: Seq<char>)
    ensures
        appr_below(x, o, op) || appr_above(x, o, op) || (x.owner@ == o && x.operator@ == op),
        appr_below(x, o, op) ==> !appr_above(x, o, op) && !(x.owner@ == o && x.operator@ == op),
        appr_above(x, o, op) ==> !(x.owner@ == o && x.operator@ == op),
{
    lemma_lex_connex(x.owner@, o);
    lemma_lex_asymmetric(x.owner@, o);
    lemma_lex_irreflexive(x.owner@);
    lemma_lex_irreflexive(o);
    lemma_lex_connex(x.operator@, op);
    lemma_lex_asymmetric(x.operator@, op);
    lemma_lex_irreflexive(x.operator@);
    lemma_lex_irreflexive(op);
}

/// Rows after one that is already above the key are above the key too.
pub proof fn lemma_bal_above_trans(x: Balance, y: Balance, o: Seq<char>, id: u64)
    requires
        bal_above(x, o, id),
        bal_key_lt(x, y),
    ensures
        bal_above(y, o, id),
{
    if lex_lt_both(o, x.owner@, y.owner@) {
        lemma_lex_transitive(o, x.owner@, y.owner@);
    }
}

/// Helper naming the case where transitivity on the owner component is needed.
spec fn lex_lt_both(a: Seq<char>, b: Seq<char>, c: Seq<char>) -> bool {
    crate::lexord::lex_lt(a, b) && crate::lexord::lex_lt(b, c)
}

pub proof fn lemma_appr_above_trans(x: Approval, y: Approval, o: Seq<char>, op: Seq<char>)
    requires
        appr_above(x, o, op),
        appr_key_lt(x, y),
    ensures
        appr_above(y, o, op),
{
    if lex_lt_both(o, x.owner@, y.owner@) {
        lemma_lex_transitive(o, x.owner@, y.owner@);
    }
    if x.owner@ == y.owner@ && o == x.owner@ && lex_lt_both(op, x.operator@, y.operator@) {
        lemma_lex_transitive(op, x.operator@, y.operator@);
    }
}

// ---------------------------------------------------------------------------
// Decomposition lemmas for the model functions.
// ---------------------------------------------------------------------------

/// Peeling one row off the front of a row sequence.
pub proof fn lemma_bal_cons(e: Balance, rest: Seq<Balance>, o: Seq<char>, i: u64)
    ensures
        find_bal(seq![e] + rest, o, i) == (if e.owner@ == o && e.id == i {
            e.amount
        } else {
            find_bal(rest, o, i)
        }),
        bal_has_key(seq![e] + rest, o, i) == ((e.owner@ == o && e.id == i) || bal_has_key(
            rest,
            o,
            i,
        )),
        sum_for(seq![e] + rest, i) == (if e.id == i {
            e.amount as int
        } else {
            0int
        }) + sum_for(rest, i),
{
    assert((seq![e] + rest)[0] == e);
    assert((seq![e] + rest).skip(1) =~= rest);
}

pub proof fn lemma_sum_concat(a: Seq<Balance>, b: Seq<Balance>, id: u64)
    ensures
        sum_for(a + b, id) == sum_for(a, id) + sum_for(b, id),
    decreases a.len(),
{
    if a.len() == 0 {
        assert(a + b =~= b);
    } else {
        assert((a + b)[0] == a[0]);
        assert((a + b).skip(1) =~= a.skip(1) + b);
        lemma_sum_concat(a.skip(1), b, id);
    }
}

pub proof fn lemma_find_concat(a: Seq<Balance>, b: Seq<Balance>, o: Seq<char>, id: u64)
    ensures
        bal_has_key(a + b, o, id) == (bal_has_key(a, o, id) || bal_has_key(b, o, id)),
        find_bal(a + b, o, id) == (if bal_has_key(a, o, id) {
            find_bal(a, o, id)
        } else {
            find_bal(b, o, id)
        }),
    decreases a.len(),
{
    if a.len() == 0 {
        assert(a + b =~= b);
    } else {
        assert((a + b)[0] == a[0]);
        assert((a + b).skip(1) =~= a.skip(1) + b);
        lemma_find_concat(a.skip(1), b, o, id);
    }
}

/// When no row carries the key, the lookup yields the defaults.
pub proof fn lemma_bal_absent(s: Seq<Balance>, o: Seq<char>, id: u64)
    requires
        forall|k: int| 0 <= k < s.len() ==> !((#[trigger] s[k]).owner@ == o && s[k].id == id),
    ensures
        !bal_has_key(s, o, id),
        find_bal(s, o, id) == 0,
    decreases s.len(),
{
    if s.len() != 0 {
        assert(forall|k: int| 0 <= k < s.skip(1).len() ==> #[trigger] s.skip(1)[k] == s[k + 1]);
        lemma_bal_absent(s.skip(1), o, id);
    }
}

/// A token id that no row carries contributes nothing to the total.
pub proof fn lemma_sum_absent(s: Seq<Balance>, id: u64)
    requires
        forall|k: int| 0 <= k < s.len() ==> (#[trigger] s[k]).id != id,
    ensures
        sum_for(s, id) == 0,
    decreases s.len(),
{
    if s.len() != 0 {
        assert(forall|k: int| 0 <= k < s.skip(1).len() ==> #[trigger] s.skip(1)[k] == s[k + 1]);
        lemma_sum_absent(s.skip(1), id);
    }
}

/// A nonzero balance can only come from an existing row.
pub proof fn lemma_nonzero_has_key(s: Seq<Balance>, o: Seq<char>, id: u64)
    ensures
        find_bal(s, o, id) != 0 ==> bal_has_key(s, o, id),
    decreases s.len(),
{
    if s.len() != 0 {
        lemma_nonzero_has_key(s.skip(1), o, id);
    }
}

/// One owner's row never exceeds the total held for the token.
pub proof fn lemma_find_le_sum(s: Seq<Balance>, o: Seq<char>, id: u64)
    ensures
        0 <= sum_for(s, id),
        find_bal(s, o, id) as int <= sum_for(s, id),
    decreases s.len(),
{
    if s.len() != 0 {
        lemma_find_le_sum(s.skip(1), o, id);
    }
}

/// Two distinct owners' rows together never exceed the total for the token.
pub proof fn lemma_find_pair_le_sum(s: Seq<Balance>, o1: Seq<char>, o2: Seq<char>, id: u64)
    requires
        o1 != o2,
    ensures
        find_bal(s, o1, id) + find_bal(s, o2, id) <= sum_for(s, id),
    decreases s.len(),
{
    if s.len() != 0 {
        if s[0].owner@ == o1 && s[0].id == id {
            lemma_find_le_sum(s.skip(1), o2, id);
        } else if s[0].owner@ == o2 && s[0].id == id {
            lemma_find_le_sum(s.skip(1), o1, id);
        } else {
            lemma_find_pair_le_sum(s.skip(1), o1, o2, id);
            lemma_find_le_sum(s.skip(1), o1, id);
        }
    }
}

pub proof fn lemma_appr_cons(e: Approval, rest: Seq<Approval>, o: Seq<char>, op: Seq<char>)
    ensures
        find_appr(seq![e] + rest, o, op) == (if e.owner@ == o && e.operator@ == op {
            Some(e.expiration)
        } else {
            find_appr(rest, o, op)
        }),
{
    assert((seq![e] + rest)[0] == e);
    assert((seq![e] + rest).skip(1) =~= rest);
}

pub proof fn lemma_appr_find_concat(a: Seq<Approval>, b: Seq<Approval>, o: Seq<char>, op: Seq<char>)
    ensures
        find_appr(a + b, o, op) == (if find_appr(a, o, op) is Some {
            find_appr(a, o, op)
        } else {
            find_appr(b, o, op)
        }),
    decreases a.len(),
{
    if a.len() == 0 {
        assert(a + b =~= b);
    } else {
        assert((a + b)[0] == a[0]);
        assert((a + b).skip(1) =~= a.skip(1) + b);
        lemma_appr_find_concat(a.skip(1), b, o, op);
    }
}

pub proof fn lemma_appr_absent(s: Seq<Approval>, o: Seq<char>, op: Seq<char>)
    requires
        forall|k: int| 0 <= k < s.len() ==> !((#[trigger] s[k]).owner@ == o && s[k].operator@ == op),
    ensures
        find_appr(s, o, op) is None,
    decreases s.len(),
{
    if s.len() != 0 {
        assert(forall|k: int| 0 <= k < s.skip(1).len() ==> #[trigger] s.skip(1)[k] == s[k + 1]);
        lemma_appr_absent(s.skip(1), o, op);
    }
}

// ---------------------------------------------------------------------------
// Executable key tests and lookups.
// ---------------------------------------------------------------------------

fn bal_entry_below(x: &Balance, owner: &String, id: u64) -> (r: bool)
    ensures
        r == bal_below(*x, owner@, id),
{
    if str_lt(x.owner.as_str(), owner.as_str()) {
        true
    } else if x.owner == *owner {
        x.id < id
    } else {
        false
    }
}

fn appr_entry_below(x: &Approval, owner: &String, operator: &String) -> (r: bool)
    ensures
        r == appr_below(*x, owner@, operator@),
{
    if str_lt(x.owner.as_str(), owner.as_str()) {
        true
    } else if x.owner == *owner {
        str_lt(x.operator.as_str(), operator.as_str())
    } else {
        false
    }
}

/// The amount held by `owner` for token `id` (0 when no row exists).
pub fn bal_lookup(v: &Vec<Balance>, owner: &String, id: u64) -> (r: u128)
    ensures
        r == find_bal(v@, owner@, id),
{
    let mut i: usize = 0;
    proof {
        assert(v@.skip(0) =~= v@);
    }
    while i < v.len()
        invariant
            i <= v@.len(),
            find_bal(v@, owner@, id) == find_bal(v@.skip(i as int), owner@, id),
        decreases v@.len() - i,
    {
        proof {
            assert(v@.skip(i as int)[0] == v@[i as int]);
            assert(v@.skip(i as int).skip(1) =~= v@.skip(i as int + 1));
        }
        if v[i].owner == *owner && v[i].id == id {
            return v[i].amount;
        }
        i = i + 1;
    }
    0
}

/// The grant row for (owner, operator), if one exists.
pub fn appr_lookup(v: &Vec<Approval>, owner: &String, operator: &String) -> (r: Option<Expiration>)
    ensures
        r == find_appr(v@, owner@, operator@),
{
    let mut i: usize = 0;
    proof {
        assert(v@.skip(0) =~= v@);
    }
    while i < v.len()
        invariant
            i <= v@.len(),
            find_appr(v@, owner@, operator@) == find_appr(v@.skip(i as int), owner@, operator@),
        decreases v@.len() - i,
    {
        proof {
            assert(v@.skip(i as int)[0] == v@[i as int]);
            assert(v@.skip(i as int).skip(1) =~= v@.skip(i as int + 1));
        }
        if v[i].owner == *owner && v[i].operator == *operator {
            return Some(v[i].expiration);
        }
        i = i + 1;
    }
    None
}

// ---------------------------------------------------------------------------
// Sorted upsert on balances.
// ---------------------------------------------------------------------------

/// Sets the row (owner, id) to `amount`, inserting it at its sorted position
/// if it does not exist yet.
pub fn bal_upsert(v: &mut Vec<Balance>, owner: &String, id: u64, amount: u128)
    requires
        bals_sorted(old(v)@),
    ensures
        bals_sorted(final(v)@),
        find_bal(final(v)@, owner@, id) == amount,
        bal_has_key(final(v)@, owner@, id),
        forall|o: Seq<char>, i: u64|
            !(o == owner@ && i == id) ==> find_bal(final(v)@, o, i) == find_bal(old(v)@, o, i),
        forall|o: Seq<char>, i: u64|
            !(o == owner@ && i == id) ==> bal_has_key(final(v)@, o, i) == bal_has_key(
                old(v)@,
                o,
                i,
            ),
        sum_for(final(v)@, id) == sum_for(old(v)@, id) - find_bal(old(v)@, owner@, id) + amount,
        forall|i: u64| i != id ==> sum_for(final(v)@, i) == sum_for(old(v)@, i),
        final(v)@.len() == old(v)@.len() + (if bal_has_key(old(v)@, owner@, id) {
            0int
        } else {
            1int
        }),
        forall|k: int|
            0 <= k < final(v)@.len() ==> ((#[trigger] final(v)@[k]).id == id || bal_id_present(
                old(v)@,
                final(v)@[k].id,
            )),
{
    let ghost s0 = v@;
    let mut i: usize = 0;
    while i < v.len() && bal_entry_below(&v[i], owner, id)
        invariant
            v@ == s0,
            i <= s0.len(),
            forall|j: int| 0 <= j < i ==> bal_below(#[trigger] s0[j], owner@, id),
        decreases v@.len() - i,
    {
        i = i + 1;
    }
    let ghost pre = s0.take(i as int);
    proof {
        assert forall|j: int| 0 <= j < pre.len() implies !((#[trigger] pre[j]).owner@ == owner@
            && pre[j].id == id) by {
            assert(pre[j] == s0[j]);
            lemma_bal_key_cases(s0[j], owner@, id);
        }
        lemma_bal_absent(pre, owner@, id);
    }
    let newe = Balance { owner: owner.clone(), id, amount };
    if i < v.len() && v[i].owner == *owner && v[i].id == id {
        let ghost olde = s0[i as int];
        let ghost post = s0.skip(i as int + 1);
        v[i] = newe;
        proof {
            let s1 = v@;
            assert(s0 =~= pre + (seq![olde] + post));
            assert(s1 =~= pre + (seq![newe] + post));
            assert forall|j: int| 0 <= j < post.len() implies !((#[trigger] post[j]).owner@
                == owner@ && post[j].id == id) by {
                assert(post[j] == s0[i as int + 1 + j]);
                assert(bal_key_lt(olde, s0[i as int + 1 + j]));
                if post[j].owner@ == owner@ && post[j].id == id {
                    lemma_lex_irreflexive(owner@);
                }
            }
            lemma_bal_absent(post, owner@, id);
            // Lookup and accounting facts, key by key.
            assert forall|o: Seq<char>, ii: u64|
                #![trigger find_bal(s1, o, ii)]
                #![trigger bal_has_key(s1, o, ii)]
                find_bal(s1, o, ii) == (if o == owner@ && ii == id {
                    amount
                } else {
                    find_bal(s0, o, ii)
                }) && bal_has_key(s1, o, ii) == ((o == owner@ && ii == id) || bal_has_key(
                    s0,
                    o,
                    ii,
                )) by {
                lemma_find_concat(pre, seq![olde] + post, o, ii);
                lemma_find_concat(pre, seq![newe] + post, o, ii);
                lemma_bal_cons(olde, post, o, ii);
                lemma_bal_cons(newe, post, o, ii);
            }
            assert forall|ii: u64| #![trigger sum_for(s1, ii)]
                sum_for(s1, ii) == sum_for(s0, ii) - (if olde.id == ii {
                    olde.amount as int
                } else {
                    0int
                }) + (if ii == id {
                    amount as int
                } else {
                    0int
                }) by {
                lemma_sum_concat(pre, seq![olde] + post, ii);
                lemma_sum_concat(pre, seq![newe] + post, ii);
                lemma_bal_cons(olde, post, owner@, ii);
                lemma_bal_cons(newe, post, owner@, ii);
            }
            assert(find_bal(s0, owner@, id) == olde.amount) by {
                lemma_find_concat(pre, seq![olde] + post, owner@, id);
                lemma_bal_cons(olde, post, owner@, id);
            }
            assert(bal_has_key(s0, owner@, id)) by {
                lemma_find_concat(pre, seq![olde] + post, owner@, id);
                lemma_bal_cons(olde, post, owner@, id);
            }
            assert(bals_sorted(s1)) by {
                assert forall|a: int, b: int| 0 <= a < b < s1.len() implies bal_key_lt(
                    s1[a],
                    s1[b],
                ) by {
                    assert(bal_key_lt(s0[a], s0[b]));
                }
            }
            assert forall|k: int| 0 <= k < s1.len() implies ((#[trigger] s1[k]).id == id
                || bal_id_present(s0, s1[k].id)) by {
                if k != i {
                    assert(s1[k] == s0[k]);
                }
            }
        }
    } else {
        let ghost post = s0.skip(i as int);
        proof {
            assert forall|j: int| i <= j < s0.len() implies bal_above(
                #[trigger] s0[j],
                owner@,
                id,
            ) by {
                lemma_bal_key_cases(s0[i as int], owner@, id);
                if j > i {
                    lemma_bal_above_trans(s0[i as int], s0[j], owner@, id);
                }
            }
            assert forall|j: int| 0 <= j < post.len() implies !((#[trigger] post[j]).owner@
                == owner@ && post[j].id == id) by {
                assert(post[j] == s0[i as int + j]);
                lemma_bal_key_cases(s0[i as int + j], owner@, id);
            }
            lemma_bal_absent(post, owner@, id);
            assert(s0 =~= pre + post);
        }
        v.insert(i, newe);
        proof {
            let s1 = v@;
            assert(s1 =~= pre + (seq![newe] + post)) by {
                s0.insert_ensures(i as int, newe);
            }
            assert forall|o: Seq<char>, ii: u64|
                #![trigger find_bal(s1, o, ii)]
                #![trigger bal_has_key(s1, o, ii)]
                find_bal(s1, o, ii) == (if o == owner@ && ii == id {
                    amount
                } else {
                    find_bal(s0, o, ii)
                }) && bal_has_key(s1, o, ii) == ((o == owner@ && ii == id) || bal_has_key(
                    s0,
                    o,
                    ii,
                )) by {
                lemma_find_concat(pre, post, o, ii);
                lemma_find_concat(pre, seq![newe] + post, o, ii);
                lemma_bal_cons(newe, post, o, ii);
            }
            assert forall|ii: u64| #![trigger sum_for(s1, ii)]
                sum_for(s1, ii) == sum_for(s0, ii) + (if ii == id {
                    amount as int
                } else {
                    0int
                }) by {
                lemma_sum_concat(pre, post, ii);
                lemma_sum_concat(pre, seq![newe] + post, ii);
                lemma_bal_cons(newe, post, owner@, ii);
            }
            assert(find_bal(s0, owner@, id) == 0 && !bal_has_key(s0, owner@, id)) by {
                lemma_find_concat(pre, post, owner@, id);
            }
            assert(bals_sorted(s1)) by {
                assert forall|a: int, b: int| 0 <= a < b < s1.len() implies bal_key_lt(
                    s1[a],
                    s1[b],
                ) by {
                    s0.insert_ensures(i as int, newe);
                    if a < i && b == i {
                        assert(s1[a] == s0[a] && s1[b] == newe);
                        assert(bal_below(s0[a], owner@, id));
                    } else if a == i && b > i {
                        assert(s1[a] == newe && s1[b] == s0[b - 1]);
                        assert(bal_above(s0[b - 1], owner@, id));
                    } else if a < i && b > i {
                        assert(s1[a] == s0[a] && s1[b] == s0[b - 1]);
                        assert(bal_key_lt(s0[a], s0[b - 1]));
                    } else if b < i {
                        assert(s1[a] == s0[a] && s1[b] == s0[b]);
                    } else {
                        assert(s1[a] == s0[a - 1] && s1[b] == s0[b - 1]);
                        assert(bal_key_lt(s0[a - 1], s0[b - 1]));
                    }
                }
            }
            assert forall|k: int| 0 <= k < s1.len() implies ((#[trigger] s1[k]).id == id
                || bal_id_present(s0, s1[k].id)) by {
                s0.insert_ensures(i as int, newe);
                if k < i {
                    assert(s1[k] == s0[k]);
                } else if k > i {
                    assert(s1[k] == s0[k - 1]);
                }
            }
        }
    }
}

// ---------------------------------------------------------------------------
// Sorted upsert and removal on grants.
// ---------------------------------------------------------------------------

/// Sets the grant (owner, operator) to `expiration`, replacing any previous
/// grant for the pair.
pub fn appr_upsert(v: &mut Vec<Approval>, owner: &String, operator: &String, expiration: Expiration)
    requires
        apprs_sorted(old(v)@),
    ensures
        apprs_sorted(final(v)@),
        find_appr(final(v)@, owner@, operator@) == Some(expiration),
        forall|o: Seq<char>, p: Seq<char>|
            !(o == owner@ && p == operator@) ==> find_appr(final(v)@, o, p) == find_appr(
                old(v)@,
                o,
                p,
            ),
        final(v)@.len() == old(v)@.len() + (if find_appr(old(v)@, owner@, operator@) is Some {
            0int
        } else {
            1int
        }),
{
    let ghost s0 = v@;
    let mut i: usize = 0;
    while i < v.len() && appr_entry_below(&v[i], owner, operator)
        invariant
            v@ == s0,
            i <= s0.len(),
            forall|j: int| 0 <= j < i ==> appr_below(#[trigger] s0[j], owner@, operator@),
        decreases v@.len() - i,
    {
        i = i + 1;
    }
    let ghost pre = s0.take(i as int);
    proof {
        assert forall|j: int| 0 <= j < pre.len() implies !((#[trigger] pre[j]).owner@ == owner@
            && pre[j].operator@ == operator@) by {
            assert(pre[j] == s0[j]);
            lemma_appr_key_cases(s0[j], owner@, operator@);
        }
        lemma_appr_absent(pre, owner@, operator@);
    }
    let newe = Approval { owner: owner.clone(), operator: operator.clone(), expiration };
    if i < v.len() && v[i].owner == *owner && v[i].operator == *operator {
        let ghost olde = s0[i as int];
        let ghost post = s0.skip(i as int + 1);
        v[i] = newe;
        proof {
            let s1 = v@;
            assert(s0 =~= pre + (seq![olde] + post));
            assert(s1 =~= pre + (seq![newe] + post));
            assert forall|o: Seq<char>, p: Seq<char>| #![trigger find_appr(s1, o, p)]
                find_appr(s1, o, p) == (if o == owner@ && p == operator@ {
                    Some(expiration)
                } else {
                    find_appr(s0, o, p)
                }) by {
                lemma_appr_find_concat(pre, seq![olde] + post, o, p);
                lemma_appr_find_concat(pre, seq![newe] + post, o, p);
                lemma_appr_cons(olde, post, o, p);
                lemma_appr_cons(newe, post, o, p);
            }
            assert(find_appr(s0, owner@, operator@) is Some) by {
                lemma_appr_find_concat(pre, seq![olde] + post, owner@, operator@);
                lemma_appr_cons(olde, post, owner@, operator@);
            }
            assert(apprs_sorted(s1)) by {
                assert forall|a: int, b: int| 0 <= a < b < s1.len() implies appr_key_lt(
                    s1[a],
                    s1[b],
                ) by {
                    assert(appr_key_lt(s0[a], s0[b]));
                }
            }
        }
    } else {
        let ghost post = s0.skip(i as int);
        proof {
            assert forall|j: int| i <= j < s0.len() implies appr_above(
                #[trigger] s0[j],
                owner@,
                operator@,
            ) by {
                lemma_appr_key_cases(s0[i as int], owner@, operator@);
                if j > i {
                    lemma_appr_above_trans(s0[i as int], s0[j], owner@, operator@);
                }
            }
            assert forall|j: int| 0 <= j < post.len() implies !((#[trigger] post[j]).owner@
                == owner@ && post[j].operator@ == operator@) by {
                assert(post[j] == s0[i as int + j]);
                lemma_appr_key_cases(s0[i as int + j], owner@, operator@);
            }
            lemma_appr_absent(post, owner@, operator@);
            assert(s0 =~= pre + post);
        }
        v.insert(i, newe);
        proof {
            let s1 = v@;
            assert(s1 =~= pre + (seq![newe] + post)) by {
                s0.insert_ensures(i as int, newe);
            }
            assert forall|o: Seq<char>, p: Seq<char>| #![trigger find_appr(s1, o, p)]
                find_appr(s1, o, p) == (if o == owner@ && p == operator@ {
                    Some(expiration)
                } else {
                    find_appr(s0, o, p)
                }) by {
                lemma_appr_find_concat(pre, post, o, p);
                lemma_appr_find_concat(pre, seq![newe] + post, o, p);
                lemma_appr_cons(newe, post, o, p);
            }
            assert(find_appr(s0, owner@, operator@) is None) by {
                lemma_appr_find_concat(pre, post, owner@, operator@);
            }
            assert(apprs_sorted(s1)) by {
                assert forall|a: int, b: int| 0 <= a < b < s1.len() implies appr_key_lt(
                    s1[a],
                    s1[b],
                ) by {
                    s0.insert_ensures(i as int, newe);
                    if a < i && b == i {
                        assert(s1[a] == s0[a] && s1[b] == newe);
                        assert(appr_below(s0[a], owner@, operator@));
                    } else if a == i && b > i {
                        assert(s1[a] == newe && s1[b] == s0[b - 1]);
                        assert(appr_above(s0[b - 1], owner@, operator@));
                    } else if a < i && b > i {
                        assert(s1[a] == s0[a] && s1[b] == s0[b - 1]);
                        assert(appr_key_lt(s0[a], s0[b - 1]));
                    } else if b < i {
                        assert(s1[a] == s0[a] && s1[b] == s0[b]);
                    } else {
                        assert(s1[a] == s0[a - 1] && s1[b] == s0[b - 1]);
                        assert(appr_key_lt(s0[a - 1], s0[b - 1]));
                    }
                }
            }
        }
    }
}

/// Deletes the grant (owner, operator) if present; no effect otherwise.
pub fn appr_remove(v: &mut Vec<Approval>, owner: &String, operator: &String)
    requires
        apprs_sorted(old(v)@),
    ensures
        apprs_sorted(final(v)@),
        find_appr(final(v)@, owner@, operator@) is None,
        forall|o: Seq<char>, p: Seq<char>|
            !(o == owner@ && p == operator@) ==> find_appr(final(v)@, o, p) == find_appr(
                old(v)@,
                o,
                p,
            ),
        final(v)@.len() == old(v)@.len() - (if find_appr(old(v)@, owner@, operator@) is Some {
            1int
        } else {
            0int
        }),
{
    let ghost s0 = v@;
    let mut i: usize = 0;
    while i < v.len() && !(v[i].owner == *owner && v[i].operator == *operator)
        invariant
            v@ == s0,
            i <= s0.len(),
            forall|j: int|
                0 <= j < i ==> !((#[trigger] s0[j]).owner@ == owner@ && s0[j].operator@
                    == operator@),
        decreases v@.len() - i,
    {
        i = i + 1;
    }
    let ghost pre = s0.take(i as int);
    proof {
        lemma_appr_absent(pre, owner@, operator@);
    }
    if i < v.len() {
        let ghost olde = s0[i as int];
        let ghost post = s0.skip(i as int + 1);
        v.remove(i);
        proof {
            let s1 = v@;
            assert(s0 =~= pre + (seq![olde] + post));
            assert(s1 =~= pre + post) by {
                s0.remove_ensures(i as int);
            }
            assert forall|j: int| 0 <= j < post.len() implies !((#[trigger] post[j]).owner@
                == owner@ && post[j].operator@ == operator@) by {
                assert(post[j] == s0[i as int + 1 + j]);
                assert(appr_key_lt(olde, s0[i as int + 1 + j]));
                if post[j].owner@ == owner@ && post[j].operator@ == operator@ {
                    lemma_lex_irreflexive(owner@);
                    lemma_lex_irreflexive(operator@);
                }
            }
            lemma_appr_absent(post, owner@, operator@);
            assert forall|o: Seq<char>, p: Seq<char>| #![trigger find_appr(s1, o, p)]
                find_appr(s1, o, p) == (if o == owner@ && p == operator@ {
                    None::<Expiration>
                } else {
                    find_appr(s0, o, p)
                }) by {
                lemma_appr_find_concat(pre, seq![olde] + post, o, p);
                lemma_appr_find_concat(pre, post, o, p);
                lemma_appr_cons(olde, post, o, p);
            }
            assert(find_appr(s0, owner@, operator@) is Some) by {
                lemma_appr_find_concat(pre, seq![olde] + post, owner@, operator@);
                lemma_appr_cons(olde, post, owner@, operator@);
            }
            assert(apprs_sorted(s1)) by {
                assert forall|a: int, b: int| 0 <= a < b < s1.len() implies appr_key_lt(
                    s1[a],
                    s1[b],
                ) by {
                    s0.remove_ensures(i as int);
                    if b < i {
                        assert(s1[a] == s0[a] && s1[b] == s0[b]);
                    } else if a < i && b >= i {
                        assert(s1[a] == s0[a] && s1[b] == s0[b + 1]);
                    } else {
                        assert(s1[a] == s0[a + 1] && s1[b] == s0[b + 1]);
                    }
                }
            }
        }
    } else {
        proof {
            assert(pre =~= s0);
        }
    }
}

} // verus!
