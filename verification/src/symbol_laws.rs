//! Laws of the named ledger: reserves, slashing and locks.
use vstd::prelude::*;
use crate::asset_symbol::{
    drop_lock, has_lock, merge_lock, replace_lock, repatriate_reserved_spec, reserve_spec, slash_spec, unreserve_spec, BalanceLock,
    BalanceStatus, Error, LockIdentifier, SymbolState,
};
use crate::dispatch::{AccountId, AssetId, Balance};
use crate::generic_asset::WithdrawReasons;

verus! {

/// A reserve undone by an unreserve of the same amount, both made by an authorised
/// delegate, gives the account back its free and reserved balances.
pub proof fn law_reserve_then_unreserve_restores(g: SymbolState, from: AccountId, a: AssetId, who: AccountId, amount: Balance)
    requires
        g.delegated(who, from),
        g.free(a, who) >= amount,
        g.reserved(a, who) + amount <= Balance::MAX,
    ensures
        ({
            let (g1, r1) = reserve_spec(g, from, a, who, amount);
            let (g2, r2) = unreserve_spec(g1, from, a, who, amount);
            &&& r1 is Ok
            &&& r2 is Ok
            &&& g2.free(a, who) == g.free(a, who)
            &&& g2.reserved(a, who) == g.reserved(a, who)
        }),
{
}

/// Without an authorisation from the account, nobody moves its reserve: both calls are
/// refused and nothing changes.
pub proof fn law_reserve_needs_delegation(g: SymbolState, from: AccountId, a: AssetId, who: AccountId, amount: Balance)
    requires
        !g.delegated(who, from),
    ensures
        reserve_spec(g, from, a, who, amount) == (g, Err::<(), Error>(Error::NoReserveAuth)),
        unreserve_spec(g, from, a, who, amount) == (g, Err::<(), Error>(Error::NoReserveAuth)),
{
}

/// Slashing takes `amount` from the free balance first and the reserve after, never more
/// than there is; what it could not take is handed back, and nothing where it took all.
pub proof fn law_slash_takes_what_there_is(g: SymbolState, a: AssetId, who: AccountId, amount: Balance)
    ensures
        ({
            let (g1, r) = slash_spec(g, a, who, amount);
            let before = g.free(a, who) + g.reserved(a, who);
            let after = g1.free(a, who) + g1.reserved(a, who);
            &&& amount <= before ==> r is None && after == before - amount
            &&& amount > before ==> r == Some((amount - before) as Balance) && after == 0
        }),
{
}

/// Moving reserve between two accounts keeps their combined balance: what leaves the
/// reserve of one arrives with the other, and the part that could not move is handed back.
pub proof fn law_repatriate_conserves(g: SymbolState, a: AssetId, who: AccountId, beneficiary: AccountId, amount: Balance, status: BalanceStatus)
    requires
        who != beneficiary,
        g.free(a, beneficiary) + g.reserved(a, beneficiary) + g.reserved(a, who) <= Balance::MAX,
    ensures
        ({
            let (g1, rest) = repatriate_reserved_spec(g, a, who, beneficiary, amount, status);
            let moved = amount - rest;
            &&& g1.free(a, who) + g1.reserved(a, who) == g.free(a, who) + g.reserved(a, who) - moved
            &&& g1.free(a, beneficiary) + g1.reserved(a, beneficiary) == g.free(a, beneficiary) + g.reserved(a, beneficiary) + moved
            &&& 0 <= moved <= g.reserved(a, who)
        }),
{
}

/// After a lock is removed, no lock of the account carries its id, and every other lock stays.
pub proof fn law_removed_lock_is_gone(s: Seq<BalanceLock>, id: LockIdentifier)
    ensures
        !has_lock(drop_lock(s, id), id),
        forall|l: BalanceLock|
            #![trigger drop_lock(s, id).contains(l)]
            #![trigger s.contains(l)]
            l.id != id ==> (drop_lock(s, id).contains(l) <==> s.contains(l)),
    decreases s.len(),
{
    if s.len() > 0 {
        let t = s.drop_first();
        law_removed_lock_is_gone(t, id);
        let d = drop_lock(t, id);
        if has_lock(drop_lock(s, id), id) {
            let j = choose|j: int| 0 <= j < drop_lock(s, id).len() && drop_lock(s, id)[j].id == id;
            if s[0].id != id && j > 0 {
                assert(d[j - 1] == drop_lock(s, id)[j]);
            } else if s[0].id == id {
                assert(d[j] == drop_lock(s, id)[j]);
            }
        }
        assert forall|l: BalanceLock| l.id != id implies (drop_lock(s, id).contains(l) <==> s.contains(l)) by {
            if s.contains(l) {
                let j = choose|j: int| 0 <= j < s.len() && s[j] == l;
                if j > 0 {
                    assert(t[j - 1] == l);
                    assert(t.contains(l));
                    let k = choose|k: int| 0 <= k < d.len() && d[k] == l;
                    if s[0].id != id {
                        assert(drop_lock(s, id)[k + 1] == l);
                    } else {
                        assert(drop_lock(s, id)[k] == l);
                    }
                } else {
                    assert(drop_lock(s, id)[0] == l);
                }
            }
            if drop_lock(s, id).contains(l) {
                let j = choose|j: int| 0 <= j < drop_lock(s, id).len() && drop_lock(s, id)[j] == l;
                if s[0].id != id {
                    if j == 0 {
                        assert(s[0] == l);
                    } else {
                        assert(d[j - 1] == l);
                        assert(d.contains(l));
                        let k = choose|k: int| 0 <= k < t.len() && t[k] == l;
                        assert(s[k + 1] == l);
                    }
                } else {
                    assert(d[j] == l);
                    assert(d.contains(l));
                    let k = choose|k: int| 0 <= k < t.len() && t[k] == l;
                    assert(s[k + 1] == l);
                }
            }
        }
    }
}

proof fn lemma_contains_insert0(x: Seq<BalanceLock>, a: BalanceLock, l: BalanceLock)
    ensures
        x.insert(0, a).contains(l) <==> (a == l || x.contains(l)),
        x.insert(0, a).len() == x.len() + 1,
        x.insert(0, a)[0] == a,
        forall|i: int| 0 <= i < x.len() ==> x.insert(0, a)[i + 1] == x[i],
{
    let y = x.insert(0, a);
    if y.contains(l) {
        let j = choose|j: int| 0 <= j < y.len() && y[j] == l;
        if j > 0 {
            assert(x[j - 1] == l);
        }
    }
    if x.contains(l) {
        let j = choose|j: int| 0 <= j < x.len() && x[j] == l;
        assert(y[j + 1] == l);
    }
    if a == l {
        assert(y[0] == l);
    }
}

proof fn lemma_split_first(s: Seq<BalanceLock>, l: BalanceLock)
    requires
        s.len() > 0,
    ensures
        s.contains(l) <==> (s[0] == l || s.drop_first().contains(l)),
        has_lock(s, l.id) <==> (s[0].id == l.id || has_lock(s.drop_first(), l.id)),
{
    lemma_contains_insert0(s.drop_first(), s[0], l);
    assert(s.drop_first().insert(0, s[0]) =~= s);
    let t = s.drop_first();
    if has_lock(s, l.id) {
        let j = choose|j: int| 0 <= j < s.len() && s[j].id == l.id;
        if j > 0 {
            assert(t[j - 1].id == l.id);
        }
    }
    if has_lock(t, l.id) {
        let j = choose|j: int| 0 <= j < t.len() && t[j].id == l.id;
        assert(s[j + 1].id == l.id);
    }
}

/// The lock that replacing or merging leaves under an id: every lock there carrying the
/// id is `v`, others are kept as they were.
spec fn only_under_id(r: Seq<BalanceLock>, s: Seq<BalanceLock>, id: LockIdentifier, v: Option<BalanceLock>) -> bool {
    &&& forall|i: int| 0 <= i < r.len() && (#[trigger] r[i]).id == id ==> v == Some(r[i])
    &&& v is Some ==> r.contains(v->Some_0)
    &&& forall|l: BalanceLock| l.id != id ==> (#[trigger] r.contains(l) <==> s.contains(l))
}

proof fn lemma_only_under_id_step(r: Seq<BalanceLock>, s: Seq<BalanceLock>, id: LockIdentifier, v: Option<BalanceLock>, a: BalanceLock)
    requires
        s.len() > 0,
        only_under_id(r, s.drop_first(), id, v),
        a == s[0],
        a.id != id,
    ensures
        only_under_id(r.insert(0, a), s, id, v),
{
    let y = r.insert(0, a);
    lemma_contains_insert0(r, a, a);
    assert forall|i: int| 0 <= i < y.len() && (#[trigger] y[i]).id == id implies v == Some(y[i]) by {
        if i > 0 {
            assert(y[i] == r[i - 1]);
        }
    }
    if v is Some {
        lemma_contains_insert0(r, a, v->Some_0);
    }
    assert forall|l: BalanceLock| l.id != id implies (#[trigger] y.contains(l) <==> s.contains(l)) by {
        lemma_contains_insert0(r, a, l);
        lemma_split_first(s, l);
    }
}

proof fn lemma_replace_lock(s: Seq<BalanceLock>, id: LockIdentifier, v: Option<BalanceLock>)
    requires
        v is Some ==> v->Some_0.id == id && has_lock(s, id),
    ensures
        only_under_id(replace_lock(s, id, v), s, id, v),
    decreases s.len(),
{
    if s.len() > 0 {
        let t = s.drop_first();
        let probe = BalanceLock { id, amount: 0, reasons: s[0].reasons };
        lemma_split_first(s, probe);
        if s[0].id == id {
            lemma_replace_lock(t, id, None);
            let r = replace_lock(t, id, None);
            assert forall|l: BalanceLock| l.id != id implies (#[trigger] s.contains(l) <==> t.contains(l)) by {
                lemma_split_first(s, l);
            }
            match v {
                Some(nl) => {
                    let y = r.insert(0, nl);
                    lemma_contains_insert0(r, nl, nl);
                    assert forall|i: int| 0 <= i < y.len() && (#[trigger] y[i]).id == id implies v == Some(y[i]) by {
                        if i > 0 {
                            assert(y[i] == r[i - 1]);
                        }
                    }
                    assert forall|l: BalanceLock| l.id != id implies (#[trigger] y.contains(l) <==> s.contains(l)) by {
                        lemma_contains_insert0(r, nl, l);
                    }
                },
                None => {},
            }
        } else {
            lemma_replace_lock(t, id, v);
            lemma_only_under_id_step(replace_lock(t, id, v), s, id, v, s[0]);
        }
    }
}

/// The lock that extending by `nl` makes of `old`: the larger amount, the union of reasons.
spec fn merged(old: BalanceLock, nl: BalanceLock) -> BalanceLock {
    BalanceLock {
        id: old.id,
        amount: if old.amount >= nl.amount { old.amount } else { nl.amount },
        reasons: WithdrawReasons { bits: old.reasons.bits | nl.reasons.bits },
    }
}

proof fn lemma_merge_lock(s: Seq<BalanceLock>, id: LockIdentifier, nl: BalanceLock) -> (k: int)
    requires
        has_lock(s, id),
    ensures
        0 <= k < s.len(),
        s[k].id == id,
        forall|j: int| 0 <= j < k ==> s[j].id != id,
        only_under_id(merge_lock(s, Some(nl), id), s, id, Some(merged(s[k], nl))),
    decreases s.len(),
{
    let t = s.drop_first();
    let probe = BalanceLock { id, amount: 0, reasons: s[0].reasons };
    lemma_split_first(s, probe);
    if s[0].id == id {
        lemma_merge_none(t, id);
        let r = merge_lock(t, None, id);
        let m = merged(s[0], nl);
        let y = r.insert(0, m);
        lemma_contains_insert0(r, m, m);
        assert forall|i: int| 0 <= i < y.len() && (#[trigger] y[i]).id == id implies Some(m) == Some(y[i]) by {
            if i > 0 {
                assert(y[i] == r[i - 1]);
            }
        }
        assert forall|l: BalanceLock| l.id != id implies (#[trigger] y.contains(l) <==> s.contains(l)) by {
            lemma_contains_insert0(r, m, l);
            lemma_split_first(s, l);
        }
        0
    } else {
        let k = lemma_merge_lock(t, id, nl);
        assert(s[k + 1] == t[k]);
        assert forall|j: int| 0 <= j < k + 1 implies s[j].id != id by {
            if j > 0 {
                assert(s[j] == t[j - 1]);
            }
        }
        lemma_only_under_id_step(merge_lock(t, Some(nl), id), s, id, Some(merged(t[k], nl)), s[0]);
        k + 1
    }
}

proof fn lemma_merge_none(s: Seq<BalanceLock>, id: LockIdentifier)
    ensures
        only_under_id(merge_lock(s, None, id), s, id, None),
    decreases s.len(),
{
    if s.len() > 0 {
        let t = s.drop_first();
        lemma_merge_none(t, id);
        if s[0].id == id {
            assert forall|l: BalanceLock| l.id != id implies (#[trigger] merge_lock(s, None, id).contains(l) <==> s.contains(l)) by {
                lemma_split_first(s, l);
            }
        } else {
            lemma_only_under_id_step(merge_lock(t, None, id), s, id, None, s[0]);
        }
    }
}

/// Setting a lock leaves exactly that lock under its id: every lock of the account that
/// carries the id is the new one, the new one is there, and the locks under other ids
/// are those there were.
pub proof fn law_set_lock_leaves_the_new_lock(s: Seq<BalanceLock>, nl: BalanceLock)
    ensures
        ({
            let r = if has_lock(s, nl.id) { replace_lock(s, nl.id, Some(nl)) } else { s.push(nl) };
            &&& r.contains(nl)
            &&& forall|i: int| 0 <= i < r.len() && (#[trigger] r[i]).id == nl.id ==> r[i] == nl
            &&& forall|l: BalanceLock| l.id != nl.id ==> (#[trigger] r.contains(l) <==> s.contains(l))
        }),
{
    if has_lock(s, nl.id) {
        lemma_replace_lock(s, nl.id, Some(nl));
    } else {
        let r = s.push(nl);
        assert(r[s.len() as int] == nl);
        assert forall|i: int| 0 <= i < r.len() && (#[trigger] r[i]).id == nl.id implies r[i] == nl by {
            if i < s.len() {
                assert(r[i] == s[i]);
            }
        }
        assert forall|l: BalanceLock| l.id != nl.id implies (#[trigger] r.contains(l) <==> s.contains(l)) by {
            if r.contains(l) {
                let j = choose|j: int| 0 <= j < r.len() && r[j] == l;
                assert(s[j] == l);
            }
            if s.contains(l) {
                let j = choose|j: int| 0 <= j < s.len() && s[j] == l;
                assert(r[j] == l);
            }
        }
    }
}

/// Extending a lock leaves one lock under its id: where the account had one, the first
/// such lock grown to the larger of the two amounts, with the reasons of both; else the new
/// lock. The locks under other ids are those there were.
pub proof fn law_extend_lock_grows_the_lock(s: Seq<BalanceLock>, nl: BalanceLock)
    ensures
        ({
            let r = if has_lock(s, nl.id) { merge_lock(s, Some(nl), nl.id) } else { s.push(nl) };
            &&& !has_lock(s, nl.id) ==> r.contains(nl) && forall|i: int| 0 <= i < r.len() && (#[trigger] r[i]).id == nl.id ==> r[i] == nl
            &&& has_lock(s, nl.id) ==> exists|k: int| 0 <= k < s.len() && s[k].id == nl.id
                && (forall|j: int| 0 <= j < k ==> s[j].id != nl.id)
                && ({
                    let g = BalanceLock {
                        id: nl.id,
                        amount: if s[k].amount >= nl.amount { s[k].amount } else { nl.amount },
                        reasons: WithdrawReasons { bits: s[k].reasons.bits | nl.reasons.bits },
                    };
                    r.contains(g) && forall|i: int| 0 <= i < r.len() && (#[trigger] r[i]).id == nl.id ==> r[i] == g
                })
            &&& forall|l: BalanceLock| l.id != nl.id ==> (#[trigger] r.contains(l) <==> s.contains(l))
        }),
{
    law_set_lock_leaves_the_new_lock(s, nl);
    if has_lock(s, nl.id) {
        let k = lemma_merge_lock(s, nl.id, nl);
        let r = merge_lock(s, Some(nl), nl.id);
        let g = merged(s[k], nl);
        assert(g.id == nl.id);
        assert(r.contains(g));
        assert forall|i: int| 0 <= i < r.len() && (#[trigger] r[i]).id == nl.id implies r[i] == g by {
            assert(Some(g) == Some(r[i]));
        }
        assert(0 <= k < s.len() && s[k].id == nl.id && (forall|j: int| 0 <= j < k ==> s[j].id != nl.id)
            && (r.contains(g) && forall|i: int| 0 <= i < r.len() && (#[trigger] r[i]).id == nl.id ==> r[i] == g));
        assert forall|l: BalanceLock| l.id != nl.id implies (#[trigger] r.contains(l) <==> s.contains(l)) by {
        }
    } else {
        let r = s.push(nl);
        assert forall|l: BalanceLock| l.id != nl.id implies (#[trigger] r.contains(l) <==> s.contains(l)) by {
            if r.contains(l) {
                let j = choose|j: int| 0 <= j < r.len() && r[j] == l;
                assert(s[j] == l);
            }
            if s.contains(l) {
                let j = choose|j: int| 0 <= j < s.len() && s[j] == l;
                assert(r[j] == l);
            }
        }
    }
}

} // verus!
