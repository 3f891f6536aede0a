//! Totals by asset: what a list of holdings, or a sum of balances, holds
//! of one asset in all. Merging moves amounts between entries and never
//! changes a total.

use crate::asset::{
    aggregate, amounts_fit, credit, credit_all, distinct_keys, holds, is_first_position,
    lemma_credit_all_distinct, lemma_not_held, position_of, AssetAmount, BalanceView,
};
use vstd::prelude::*;

verus! {

/// What one entry holds of an asset.
pub open spec fn share(e: AssetAmount, key: Seq<char>) -> nat {
    if e.key == key {
        e.amount
    } else {
        0
    }
}

/// What all entries together hold of an asset.
pub open spec fn total_of(entries: Seq<AssetAmount>, key: Seq<char>) -> nat
    decreases entries.len(),
{
    if entries.len() == 0 {
        0
    } else {
        total_of(entries.drop_last(), key) + share(entries.last(), key)
    }
}

/// What several lists of entries together hold of an asset.
pub open spec fn grand_total(lists: Seq<Seq<AssetAmount>>, key: Seq<char>) -> nat
    decreases lists.len(),
{
    if lists.len() == 0 {
        0
    } else {
        grand_total(lists.drop_last(), key) + total_of(lists.last(), key)
    }
}

/// Several lists of entries merged into one, each in turn.
pub open spec fn merged(lists: Seq<Seq<AssetAmount>>) -> Seq<AssetAmount>
    decreases lists.len(),
{
    if lists.len() == 0 {
        Seq::empty()
    } else {
        credit_all(merged(lists.drop_last()), lists.last())
    }
}

/// The native entries of each balance of a list.
pub open spec fn natives(balances: Seq<BalanceView>) -> Seq<Seq<AssetAmount>> {
    Seq::new(balances.len(), |i: int| balances[i].native)
}

/// The token entries of each balance of a list.
pub open spec fn tokens(balances: Seq<BalanceView>) -> Seq<Seq<AssetAmount>> {
    Seq::new(balances.len(), |i: int| balances[i].cw20)
}

/// Replacing an entry changes a total by the difference of the shares.
pub proof fn lemma_total_update(entries: Seq<AssetAmount>, p: int, e: AssetAmount, key: Seq<char>)
    requires
        0 <= p < entries.len(),
    ensures
        total_of(entries.update(p, e), key) + share(entries[p], key) == total_of(entries, key)
            + share(e, key),
    decreases entries.len(),
{
    let after = entries.update(p, e);
    if p == entries.len() - 1 {
        assert(after.drop_last() =~= entries.drop_last());
    } else {
        assert(after.drop_last() =~= entries.drop_last().update(p, e));
        lemma_total_update(entries.drop_last(), p, e, key);
    }
}

/// Merging an amount raises the total of its asset by the amount and
/// leaves the other totals as they are.
pub proof fn lemma_total_credit(entries: Seq<AssetAmount>, e: AssetAmount, key: Seq<char>)
    ensures
        total_of(credit(entries, e), key) == total_of(entries, key) + share(e, key),
{
    if holds(entries, e.key) {
        let p = position_of(entries, e.key);
        lemma_total_update(
            entries,
            p,
            AssetAmount { key: e.key, amount: entries[p].amount + e.amount },
            key,
        );
    } else {
        assert(entries.push(e).drop_last() =~= entries);
    }
}

/// Merging a list raises each total by what the list holds of the asset.
pub proof fn lemma_total_credit_all(
    entries: Seq<AssetAmount>,
    more: Seq<AssetAmount>,
    key: Seq<char>,
)
    ensures
        total_of(credit_all(entries, more), key) == total_of(entries, key) + total_of(more, key),
    decreases more.len(),
{
    if more.len() > 0 {
        lemma_total_credit_all(entries, more.drop_last(), key);
        lemma_total_credit(credit_all(entries, more.drop_last()), more.last(), key);
    }
}

/// An entry holds no more than the total of its asset.
pub proof fn lemma_entry_within_total(entries: Seq<AssetAmount>, i: int)
    requires
        0 <= i < entries.len(),
    ensures
        entries[i].amount <= total_of(entries, entries[i].key),
    decreases entries.len(),
{
    if i < entries.len() - 1 {
        lemma_entry_within_total(entries.drop_last(), i);
    }
}

/// Where no entry holds an asset, its total is nothing.
pub proof fn lemma_total_absent(entries: Seq<AssetAmount>, key: Seq<char>)
    requires
        forall|j: int| 0 <= j < entries.len() ==> (#[trigger] entries[j]).key != key,
    ensures
        total_of(entries, key) == 0,
    decreases entries.len(),
{
    if entries.len() > 0 {
        let front = entries.drop_last();
        assert forall|j: int| 0 <= j < front.len() implies (#[trigger] front[j]).key != key by {
            assert(entries[j].key != key);
        }
        lemma_total_absent(front, key);
    }
}

/// Where each asset has one entry, the total of an asset is the amount of
/// its entry.
pub proof fn lemma_total_of_distinct(entries: Seq<AssetAmount>, i: int)
    requires
        distinct_keys(entries),
        0 <= i < entries.len(),
    ensures
        total_of(entries, entries[i].key) == entries[i].amount,
    decreases entries.len(),
{
    let front = entries.drop_last();
    let key = entries[i].key;
    assert forall|a: int, b: int| 0 <= a < b < front.len() implies (#[trigger] front[a]).key != (
    #[trigger] front[b]).key by {
        assert(entries[a].key != entries[b].key);
    }
    if i == entries.len() - 1 {
        assert forall|j: int| 0 <= j < front.len() implies (#[trigger] front[j]).key != key by {
            assert(entries[j].key != entries[i].key);
        }
        lemma_total_absent(front, key);
    } else {
        lemma_total_of_distinct(front, i);
    }
}

/// Where each asset has one entry and every entry fits, every total fits.
pub proof fn lemma_total_bounded(entries: Seq<AssetAmount>, key: Seq<char>)
    requires
        distinct_keys(entries),
        amounts_fit(entries),
    ensures
        total_of(entries, key) <= u128::MAX,
{
    if holds(entries, key) {
        let p = position_of(entries, key);
        lemma_total_of_distinct(entries, p);
    } else {
        lemma_not_held(entries, key);
        lemma_total_absent(entries, key);
    }
}

/// What merged lists hold of an asset is what the lists hold of it.
pub proof fn lemma_merged_total(lists: Seq<Seq<AssetAmount>>, key: Seq<char>)
    ensures
        total_of(merged(lists), key) == grand_total(lists, key),
    decreases lists.len(),
{
    if lists.len() > 0 {
        lemma_merged_total(lists.drop_last(), key);
        lemma_total_credit_all(merged(lists.drop_last()), lists.last(), key);
    }
}

/// Merged lists hold no asset twice.
pub proof fn lemma_merged_distinct(lists: Seq<Seq<AssetAmount>>)
    ensures
        distinct_keys(merged(lists)),
    decreases lists.len(),
{
    if lists.len() > 0 {
        lemma_merged_distinct(lists.drop_last());
        lemma_credit_all_distinct(merged(lists.drop_last()), lists.last());
    }
}

/// Taking a list out lowers each total by what the list held.
pub proof fn lemma_grand_total_remove(lists: Seq<Seq<AssetAmount>>, p: int, key: Seq<char>)
    requires
        0 <= p < lists.len(),
    ensures
        grand_total(lists.remove(p), key) + total_of(lists[p], key) == grand_total(lists, key),
    decreases lists.len(),
{
    let after = lists.remove(p);
    if p == lists.len() - 1 {
        assert(after =~= lists.drop_last());
    } else {
        assert(after.drop_last() =~= lists.drop_last().remove(p));
        lemma_grand_total_remove(lists.drop_last(), p, key);
    }
}

/// Where the merge of all lists fits, the merge without one of them fits.
pub proof fn lemma_merged_remove_fits(lists: Seq<Seq<AssetAmount>>, p: int)
    requires
        0 <= p < lists.len(),
        amounts_fit(merged(lists)),
    ensures
        amounts_fit(merged(lists.remove(p))),
{
    let rest = merged(lists.remove(p));
    assert forall|i: int| 0 <= i < rest.len() implies (#[trigger] rest[i]).amount
        <= u128::MAX by {
        let key = rest[i].key;
        lemma_entry_within_total(rest, i);
        lemma_merged_total(lists.remove(p), key);
        lemma_grand_total_remove(lists, p, key);
        lemma_merged_total(lists, key);
        lemma_merged_distinct(lists);
        lemma_total_bounded(merged(lists), key);
    }
}

/// The native entries of a sum of balances are the merged native entries
/// of the balances, and the token entries likewise.
pub proof fn lemma_aggregate_merged(balances: Seq<BalanceView>)
    ensures
        aggregate(balances).native == merged(natives(balances)),
        aggregate(balances).cw20 == merged(tokens(balances)),
    decreases balances.len(),
{
    if balances.len() > 0 {
        lemma_aggregate_merged(balances.drop_last());
        assert(natives(balances).drop_last() =~= natives(balances.drop_last()));
        assert(tokens(balances).drop_last() =~= tokens(balances.drop_last()));
    }
}

/// Where a sum of balances fits, the sum without one of them fits.
pub proof fn lemma_aggregate_remove_fits(balances: Seq<BalanceView>, p: int)
    requires
        0 <= p < balances.len(),
        aggregate(balances).fits(),
    ensures
        aggregate(balances.remove(p)).fits(),
{
    lemma_aggregate_merged(balances);
    lemma_aggregate_merged(balances.remove(p));
    assert(natives(balances.remove(p)) =~= natives(balances).remove(p));
    assert(tokens(balances.remove(p)) =~= tokens(balances).remove(p));
    lemma_merged_remove_fits(natives(balances), p);
    lemma_merged_remove_fits(tokens(balances), p);
}

} // verus!
