//! The whitelist of token contracts: a list of accounts that names none
//! twice and only grows.

use crate::asset::{token_amounts, AssetAmount, Cw20CoinVerified};
use vstd::prelude::*;

verus! {

/// The contents of a list of texts, in the list's order.
pub open spec fn texts_view(texts: Seq<String>) -> Seq<Seq<char>> {
    Seq::new(texts.len(), |i: int| texts[i]@)
}

/// A whitelist with one more account, unless it is listed already.
pub open spec fn with_account(list: Seq<Seq<char>>, account: Seq<char>) -> Seq<Seq<char>> {
    if list.contains(account) {
        list
    } else {
        list.push(account)
    }
}

/// A whitelist with some accounts, each added in turn unless it is listed
/// already.
pub open spec fn with_accounts(list: Seq<Seq<char>>, more: Seq<Seq<char>>) -> Seq<Seq<char>>
    decreases more.len(),
{
    if more.len() == 0 {
        list
    } else {
        with_account(with_accounts(list, more.drop_last()), more.last())
    }
}

/// A whitelist with the contracts of some token amounts, each added in
/// turn unless it is listed already.
pub open spec fn with_tokens(list: Seq<Seq<char>>, tokens: Seq<AssetAmount>) -> Seq<Seq<char>>
    decreases tokens.len(),
{
    if tokens.len() == 0 {
        list
    } else {
        with_account(with_tokens(list, tokens.drop_last()), tokens.last().key)
    }
}

/// Adding an account to a whitelist lists it, keeps what was listed, and
/// lists nothing twice.
pub proof fn lemma_with_account(list: Seq<Seq<char>>, account: Seq<char>)
    ensures
        with_account(list, account).contains(account),
        forall|x: Seq<char>| list.contains(x) ==> with_account(list, account).contains(x),
        list.no_duplicates() ==> with_account(list, account).no_duplicates(),
{
    let after = with_account(list, account);
    if !list.contains(account) {
        assert(after[list.len() as int] == account);
        assert forall|x: Seq<char>| list.contains(x) implies after.contains(x) by {
            let i = choose|i: int| 0 <= i < list.len() && list[i] == x;
            assert(after[i] == x);
        }
    }
}

/// Adding accounts to a whitelist lists nothing twice.
pub proof fn lemma_with_accounts(list: Seq<Seq<char>>, more: Seq<Seq<char>>)
    requires
        list.no_duplicates(),
    ensures
        with_accounts(list, more).no_duplicates(),
    decreases more.len(),
{
    if more.len() > 0 {
        lemma_with_accounts(list, more.drop_last());
        lemma_with_account(with_accounts(list, more.drop_last()), more.last());
    }
}

/// Adding the contracts of token amounts to a whitelist lists each of
/// them, keeps what was listed, and lists nothing twice.
pub proof fn lemma_with_tokens(list: Seq<Seq<char>>, tokens: Seq<AssetAmount>)
    ensures
        forall|j: int|
            0 <= j < tokens.len() ==> with_tokens(list, tokens).contains(
                (#[trigger] tokens[j]).key,
            ),
        forall|x: Seq<char>| list.contains(x) ==> with_tokens(list, tokens).contains(x),
        list.no_duplicates() ==> with_tokens(list, tokens).no_duplicates(),
    decreases tokens.len(),
{
    if tokens.len() > 0 {
        let front = tokens.drop_last();
        lemma_with_tokens(list, front);
        lemma_with_account(with_tokens(list, front), tokens.last().key);
        assert forall|j: int| 0 <= j < tokens.len() implies with_tokens(list, tokens).contains(
            (#[trigger] tokens[j]).key,
        ) by {
            if j < front.len() {
                assert(front[j] == tokens[j]);
            }
        }
    }
}

/// Copies a list of texts.
pub(crate) fn clone_texts(texts: &Vec<String>) -> (copy: Vec<String>)
    ensures
        texts_view(copy@) == texts_view(texts@),
{
    let mut copy: Vec<String> = Vec::new();
    let mut k: usize = 0;
    while k < texts.len()
        invariant
            k <= texts.len(),
            copy.len() == k,
            forall|i: int| 0 <= i < k ==> (#[trigger] copy[i])@ == texts[i]@,
        decreases texts.len() - k,
    {
        copy.push(texts[k].clone());
        k += 1;
    }
    copy
}

/// Whether a list of texts holds a text.
pub(crate) fn contains_text(list: &Vec<String>, text: &String) -> (r: bool)
    ensures
        r == texts_view(list@).contains(text@),
{
    let mut i: usize = 0;
    while i < list.len()
        invariant
            i <= list.len(),
            forall|j: int| 0 <= j < i ==> texts_view(list@)[j] != text@,
        decreases list.len() - i,
    {
        if list[i] == *text {
            assert(texts_view(list@)[i as int] == text@);
            return true;
        }
        i += 1;
    }
    false
}

/// Whether a list of texts holds no text twice.
pub(crate) fn has_no_duplicates(list: &Vec<String>) -> (r: bool)
    ensures
        r == texts_view(list@).no_duplicates(),
{
    let ghost all = texts_view(list@);
    let mut i: usize = 0;
    while i < list.len()
        invariant
            i <= list.len(),
            all == texts_view(list@),
            forall|a: int, b: int| 0 <= a < i && a < b < all.len() ==> all[a] != all[b],
        decreases list.len() - i,
    {
        let mut j: usize = i + 1;
        while j < list.len()
            invariant
                i < j <= list.len(),
                all == texts_view(list@),
                forall|b: int| i < b < j ==> all[i as int] != all[b],
            decreases list.len() - j,
        {
            if list[i] == list[j] {
                assert(all[i as int] == all[j as int]);
                return false;
            }
            j += 1;
        }
        i += 1;
    }
    assert forall|a: int, b: int| 0 <= a < all.len() && 0 <= b < all.len() && a != b implies all[a]
        != all[b] by {
        if a < b {
            assert(all[a] != all[b]);
        } else {
            assert(all[b] != all[a]);
        }
    }
    true
}

/// Puts an account on a whitelist unless it is there already.
pub(crate) fn whitelist_add(list: &mut Vec<String>, account: &String)
    ensures
        texts_view(final(list)@) == with_account(texts_view(old(list)@), account@),
{
    let ghost before = texts_view(list@);
    let mut i: usize = 0;
    while i < list.len()
        invariant
            i <= list.len(),
            list@ == old(list)@,
            before == texts_view(list@),
            forall|j: int| 0 <= j < i ==> before[j] != account@,
        decreases list.len() - i,
    {
        if list[i] == *account {
            assert(before[i as int] == account@);
            return ;
        }
        i += 1;
    }
    list.push(account.clone());
}

/// Puts some accounts on a whitelist, each unless it is there already.
pub(crate) fn whitelist_add_all(list: &mut Vec<String>, more: &Vec<String>)
    ensures
        texts_view(final(list)@) == with_accounts(texts_view(old(list)@), texts_view(more@)),
{
    let ghost before = texts_view(list@);
    let ghost all = texts_view(more@);
    let mut k: usize = 0;
    while k < more.len()
        invariant
            k <= more.len(),
            all == texts_view(more@),
            texts_view(list@) == with_accounts(before, all.take(k as int)),
        decreases more.len() - k,
    {
        assert(all.take(k + 1).drop_last() =~= all.take(k as int));
        whitelist_add(list, &more[k]);
        k += 1;
    }
    assert(all.take(k as int) =~= all);
}

/// Puts the contracts of some token amounts on a whitelist, each unless it
/// is there already.
pub(crate) fn whitelist_add_tokens(list: &mut Vec<String>, tokens: &Vec<Cw20CoinVerified>)
    ensures
        texts_view(final(list)@) == with_tokens(texts_view(old(list)@), token_amounts(tokens@)),
{
    let ghost before = texts_view(list@);
    let ghost all = token_amounts(tokens@);
    let mut k: usize = 0;
    while k < tokens.len()
        invariant
            k <= tokens.len(),
            all == token_amounts(tokens@),
            texts_view(list@) == with_tokens(before, all.take(k as int)),
        decreases tokens.len() - k,
    {
        assert(all.take(k + 1).drop_last() =~= all.take(k as int));
        whitelist_add(list, &tokens[k].address);
        k += 1;
    }
    assert(all.take(k as int) =~= all);
}

} // verus!
