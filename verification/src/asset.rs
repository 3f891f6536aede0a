//! Asset amounts: native coins and fungible-token amounts, and the rule by
//! which an amount is merged into a list of holdings.

use vstd::prelude::*;
use vstd::string::*;

verus! {

/// One holding, as mathematics sees it: what is held (a denomination or a
/// token contract) and how much of it.
pub struct AssetAmount {
    pub key: Seq<char>,
    pub amount: nat,
}

/// An amount of a native asset.
#[derive(Debug, PartialEq, Eq)]
pub struct Coin {
    pub denom: String,
    pub amount: u128,
}

impl View for Coin {
    type V = AssetAmount;

    open spec fn view(&self) -> AssetAmount {
        AssetAmount { key: self.denom@, amount: self.amount as nat }
    }
}

impl Clone for Coin {
    fn clone(&self) -> (c: Self)
        ensures
            c == *self,
    {
        Coin { denom: self.denom.clone(), amount: self.amount }
    }
}

impl Coin {
    /// The coin of the given amount and denomination.
    pub fn new(amount: u128, denom: &str) -> (c: Self)
        ensures
            c@ == (AssetAmount { key: denom@, amount: amount as nat }),
    {
        Coin { denom: denom.to_owned(), amount }
    }
}

/// An amount of a fungible token, named by the token contract's account.
#[derive(Debug, PartialEq, Eq)]
pub struct Cw20CoinVerified {
    pub address: String,
    pub amount: u128,
}

impl View for Cw20CoinVerified {
    type V = AssetAmount;

    open spec fn view(&self) -> AssetAmount {
        AssetAmount { key: self.address@, amount: self.amount as nat }
    }
}

impl Clone for Cw20CoinVerified {
    fn clone(&self) -> (c: Self)
        ensures
            c == *self,
    {
        Cw20CoinVerified { address: self.address.clone(), amount: self.amount }
    }
}

/// A token amount as it is shown to the outside: the contract by its text.
#[derive(Debug, PartialEq, Eq)]
pub struct Cw20Coin {
    pub address: String,
    pub amount: u128,
}

impl View for Cw20Coin {
    type V = AssetAmount;

    open spec fn view(&self) -> AssetAmount {
        AssetAmount { key: self.address@, amount: self.amount as nat }
    }
}

/// What a caller hands over with a request: native coins, or an amount of
/// one token.
#[derive(Debug, PartialEq, Eq)]
pub enum Balance {
    Native(Vec<Coin>),
    Cw20(Cw20CoinVerified),
}

/// The holdings that a list of coins stands for, in the same order.
pub open spec fn coin_amounts(coins: Seq<Coin>) -> Seq<AssetAmount> {
    Seq::new(coins.len(), |i: int| coins[i]@)
}

/// The holdings that a list of token amounts stands for, in the same order.
pub open spec fn token_amounts(tokens: Seq<Cw20CoinVerified>) -> Seq<AssetAmount> {
    Seq::new(tokens.len(), |i: int| tokens[i]@)
}

/// A balance, as mathematics sees it: native holdings and token holdings,
/// each in the order in which the assets first appeared.
pub struct BalanceView {
    pub native: Seq<AssetAmount>,
    pub cw20: Seq<AssetAmount>,
}

impl BalanceView {
    /// The balance that holds nothing.
    pub open spec fn empty() -> BalanceView {
        BalanceView { native: Seq::empty(), cw20: Seq::empty() }
    }

    /// Neither a native entry nor a token entry.
    pub open spec fn is_empty(self) -> bool {
        self.native.len() == 0 && self.cw20.len() == 0
    }

    /// No denomination and no token contract occurs twice.
    pub open spec fn distinct(self) -> bool {
        distinct_keys(self.native) && distinct_keys(self.cw20)
    }

    /// Every amount can be stored in 128 bits.
    pub open spec fn fits(self) -> bool {
        amounts_fit(self.native) && amounts_fit(self.cw20)
    }

    /// Merging `more` into this balance, native entries first, each list in
    /// its own order.
    pub open spec fn merge(self, more: BalanceView) -> BalanceView {
        BalanceView {
            native: credit_all(self.native, more.native),
            cw20: credit_all(self.cw20, more.cw20),
        }
    }
}

impl View for Balance {
    type V = BalanceView;

    open spec fn view(&self) -> BalanceView {
        match self {
            Balance::Native(coins) => BalanceView {
                native: coin_amounts(coins@),
                cw20: Seq::empty(),
            },
            Balance::Cw20(token) => BalanceView { native: Seq::empty(), cw20: seq![token@] },
        }
    }
}

/// `i` is the first place in `entries` where `key` is held.
pub open spec fn is_first_position(entries: Seq<AssetAmount>, key: Seq<char>, i: int) -> bool {
    &&& 0 <= i < entries.len()
    &&& entries[i].key == key
    &&& forall|j: int| 0 <= j < i ==> (#[trigger] entries[j]).key != key
}

/// `key` is held somewhere in `entries`.
pub open spec fn holds(entries: Seq<AssetAmount>, key: Seq<char>) -> bool {
    exists|i: int| is_first_position(entries, key, i)
}

/// The first place where `key` is held; meaningful when `holds` is true.
pub open spec fn position_of(entries: Seq<AssetAmount>, key: Seq<char>) -> int {
    choose|i: int| is_first_position(entries, key, i)
}

/// How much of `key` is held: the amount of its first entry, nothing where
/// there is none.
pub open spec fn held(entries: Seq<AssetAmount>, key: Seq<char>) -> nat {
    if holds(entries, key) {
        entries[position_of(entries, key)].amount
    } else {
        0
    }
}

/// Merging one amount into the holdings: the entry that already holds the
/// same asset grows by the amount, otherwise the amount is appended.
pub open spec fn credit(entries: Seq<AssetAmount>, e: AssetAmount) -> Seq<AssetAmount> {
    if holds(entries, e.key) {
        let i = position_of(entries, e.key);
        entries.update(i, AssetAmount { key: e.key, amount: entries[i].amount + e.amount })
    } else {
        entries.push(e)
    }
}

/// Merging a list of amounts, one after the other, in the list's order.
pub open spec fn credit_all(entries: Seq<AssetAmount>, more: Seq<AssetAmount>) -> Seq<
    AssetAmount,
>
    decreases more.len(),
{
    if more.len() == 0 {
        entries
    } else {
        credit(credit_all(entries, more.drop_last()), more.last())
    }
}

/// No asset is held in two entries.
pub open spec fn distinct_keys(entries: Seq<AssetAmount>) -> bool {
    forall|i: int, j: int|
        0 <= i < j < entries.len() ==> (#[trigger] entries[i]).key != (#[trigger] entries[j]).key
}

/// Every amount can be stored in 128 bits.
pub open spec fn amounts_fit(entries: Seq<AssetAmount>) -> bool {
    forall|i: int| 0 <= i < entries.len() ==> (#[trigger] entries[i]).amount <= u128::MAX
}

/// Where no first position exists, no entry holds the key at all.
pub proof fn lemma_not_held(entries: Seq<AssetAmount>, key: Seq<char>)
    requires
        !holds(entries, key),
    ensures
        forall|j: int| 0 <= j < entries.len() ==> (#[trigger] entries[j]).key != key,
    decreases entries.len(),
{
    if entries.len() > 0 {
        let front = entries.drop_last();
        assert forall|j: int| 0 <= j < front.len() implies front[j] == entries[j] by {}
        if holds(front, key) {
            let i = position_of(front, key);
            assert forall|j: int| 0 <= j < i implies (#[trigger] entries[j]).key != key by {
                assert(front[j].key != key);
            }
            assert(is_first_position(entries, key, i));
        }
        lemma_not_held(front, key);
        assert forall|j: int| 0 <= j < entries.len() - 1 implies (#[trigger] entries[j]).key
            != key by {
            assert(front[j].key != key);
        }
        if entries.last().key == key {
            assert(is_first_position(entries, key, entries.len() - 1));
        }
    }
}

/// The first position is the only first position.
pub proof fn lemma_position_found(entries: Seq<AssetAmount>, key: Seq<char>, i: int)
    requires
        is_first_position(entries, key, i),
    ensures
        holds(entries, key),
        position_of(entries, key) == i,
{
    let p = position_of(entries, key);
    if p < i {
        assert(entries[p].key != key);
    }
    if i < p {
        assert(entries[i].key != key);
    }
}

/// Merging keeps every asset in one entry.
pub proof fn lemma_credit_distinct(entries: Seq<AssetAmount>, e: AssetAmount)
    requires
        distinct_keys(entries),
    ensures
        distinct_keys(credit(entries, e)),
{
    if holds(entries, e.key) {
        let p = position_of(entries, e.key);
        assert(is_first_position(entries, e.key, p));
    } else {
        lemma_not_held(entries, e.key);
    }
}

/// Merging a list keeps every asset in one entry.
pub proof fn lemma_credit_all_distinct(entries: Seq<AssetAmount>, more: Seq<AssetAmount>)
    requires
        distinct_keys(entries),
    ensures
        distinct_keys(credit_all(entries, more)),
    decreases more.len(),
{
    if more.len() > 0 {
        lemma_credit_all_distinct(entries, more.drop_last());
        lemma_credit_distinct(credit_all(entries, more.drop_last()), more.last());
    }
}

/// What fits after a merge fitted before it: merging never lowers an amount.
pub proof fn lemma_fit_before_credit(entries: Seq<AssetAmount>, e: AssetAmount)
    requires
        amounts_fit(credit(entries, e)),
    ensures
        amounts_fit(entries),
{
    let after = credit(entries, e);
    if holds(entries, e.key) {
        let p = position_of(entries, e.key);
        assert(is_first_position(entries, e.key, p));
        assert forall|i: int| 0 <= i < entries.len() implies (#[trigger] entries[i]).amount
            <= u128::MAX by {
            assert(after[i].amount <= u128::MAX);
        }
    } else {
        assert forall|i: int| 0 <= i < entries.len() implies (#[trigger] entries[i]).amount
            <= u128::MAX by {
            assert(after[i].amount <= u128::MAX);
        }
    }
}

/// Where merging a whole list fits, merging any front part of it fits.
pub proof fn lemma_fit_prefix(entries: Seq<AssetAmount>, more: Seq<AssetAmount>, k: int)
    requires
        0 <= k <= more.len(),
        amounts_fit(credit_all(entries, more)),
    ensures
        amounts_fit(credit_all(entries, more.take(k))),
    decreases more.len() - k,
{
    if k == more.len() {
        assert(more.take(k) =~= more);
    } else {
        lemma_fit_prefix(entries, more, k + 1);
        let longer = more.take(k + 1);
        assert(longer.drop_last() =~= more.take(k));
        lemma_fit_before_credit(credit_all(entries, more.take(k)), longer.last());
    }
}

/// What is stored in a list of coins fits.
pub proof fn lemma_coins_fit(coins: Seq<Coin>)
    ensures
        amounts_fit(coin_amounts(coins)),
{
    assert forall|i: int| 0 <= i < coin_amounts(coins).len() implies (#[trigger] coin_amounts(
        coins,
    )[i]).amount <= u128::MAX by {
        assert(coin_amounts(coins)[i] == coins[i]@);
    }
}

/// What is stored in a list of token amounts fits.
pub proof fn lemma_tokens_fit(tokens: Seq<Cw20CoinVerified>)
    ensures
        amounts_fit(token_amounts(tokens)),
{
    assert forall|i: int| 0 <= i < token_amounts(tokens).len() implies (#[trigger] token_amounts(
        tokens,
    )[i]).amount <= u128::MAX by {
        assert(token_amounts(tokens)[i] == tokens[i]@);
    }
}

/// Merges one coin into a list of coins where the result fits: the coin of
/// the same denomination grows, or the coin is appended. Where the grown
/// amount would not fit, the list stays as it is and the answer is no.
pub(crate) fn checked_credit_coin(native: &mut Vec<Coin>, token: Coin) -> (ok: bool)
    ensures
        ok == amounts_fit(credit(coin_amounts(old(native)@), token@)),
        ok ==> coin_amounts(final(native)@) == credit(coin_amounts(old(native)@), token@),
        !ok ==> final(native)@ == old(native)@,
{
    let ghost before = coin_amounts(native@);
    let mut i: usize = 0;
    while i < native.len()
        invariant
            i <= native.len(),
            native@ == old(native)@,
            before == coin_amounts(native@),
            forall|j: int| 0 <= j < i ==> (#[trigger] before[j]).key != token@.key,
        decreases native.len() - i,
    {
        if native[i].denom == token.denom {
            proof {
                lemma_position_found(before, token@.key, i as int);
            }
            match native[i].amount.checked_add(token.amount) {
                Some(sum) => {
                    native[i].amount = sum;
                    proof {
                        lemma_coins_fit(native@);
                    }
                    return true;
                },
                None => {
                    assert(credit(before, token@)[i as int].amount > u128::MAX);
                    return false;
                },
            }
        }
        i += 1;
    }
    proof {
        if holds(before, token@.key) {
            let p = position_of(before, token@.key);
            assert(before[p].key != token@.key);
        }
    }
    native.push(token);
    proof {
        lemma_coins_fit(native@);
    }
    true
}

/// Merges one token amount into a list of token amounts where the result
/// fits: the amount of the same contract grows, or the amount is appended.
/// Where the grown amount would not fit, the list stays as it is and the
/// answer is no.
pub(crate) fn checked_credit_token(
    cw20: &mut Vec<Cw20CoinVerified>,
    token: Cw20CoinVerified,
) -> (ok: bool)
    ensures
        ok == amounts_fit(credit(token_amounts(old(cw20)@), token@)),
        ok ==> token_amounts(final(cw20)@) == credit(token_amounts(old(cw20)@), token@),
        !ok ==> final(cw20)@ == old(cw20)@,
{
    let ghost before = token_amounts(cw20@);
    let mut i: usize = 0;
    while i < cw20.len()
        invariant
            i <= cw20.len(),
            cw20@ == old(cw20)@,
            before == token_amounts(cw20@),
            forall|j: int| 0 <= j < i ==> (#[trigger] before[j]).key != token@.key,
        decreases cw20.len() - i,
    {
        if cw20[i].address == token.address {
            proof {
                lemma_position_found(before, token@.key, i as int);
            }
            match cw20[i].amount.checked_add(token.amount) {
                Some(sum) => {
                    cw20[i].amount = sum;
                    proof {
                        lemma_tokens_fit(cw20@);
                    }
                    return true;
                },
                None => {
                    assert(credit(before, token@)[i as int].amount > u128::MAX);
                    return false;
                },
            }
        }
        i += 1;
    }
    proof {
        if holds(before, token@.key) {
            let p = position_of(before, token@.key);
            assert(before[p].key != token@.key);
        }
    }
    cw20.push(token);
    proof {
        lemma_tokens_fit(cw20@);
    }
    true
}

/// Merges one coin into a list of coins: the coin of the same denomination
/// grows, or the coin is appended.
pub(crate) fn credit_coin(native: &mut Vec<Coin>, token: Coin)
    requires
        amounts_fit(credit(coin_amounts(old(native)@), token@)),
    ensures
        coin_amounts(final(native)@) == credit(coin_amounts(old(native)@), token@),
{
    let _ = checked_credit_coin(native, token);
}

/// Merges one token amount into a list of token amounts: the amount of the
/// same contract grows, or the amount is appended.
pub(crate) fn credit_token(cw20: &mut Vec<Cw20CoinVerified>, token: Cw20CoinVerified)
    requires
        amounts_fit(credit(token_amounts(old(cw20)@), token@)),
    ensures
        token_amounts(final(cw20)@) == credit(token_amounts(old(cw20)@), token@),
{
    let _ = checked_credit_token(cw20, token);
}

/// Merges a list of coins into a list of coins, in the list's order, where
/// the result fits. Where it does not, the answer is no and the list is
/// left with what was merged up to there.
pub(crate) fn checked_credit_coins(native: &mut Vec<Coin>, more: &Vec<Coin>) -> (ok: bool)
    ensures
        ok == amounts_fit(credit_all(coin_amounts(old(native)@), coin_amounts(more@))),
        ok ==> coin_amounts(final(native)@) == credit_all(
            coin_amounts(old(native)@),
            coin_amounts(more@),
        ),
{
    let ghost start = coin_amounts(native@);
    let ghost added = coin_amounts(more@);
    let mut k: usize = 0;
    while k < more.len()
        invariant
            k <= more.len(),
            added == coin_amounts(more@),
            start == coin_amounts(old(native)@),
            coin_amounts(native@) == credit_all(start, added.take(k as int)),
        decreases more.len() - k,
    {
        assert(added.take(k + 1).drop_last() =~= added.take(k as int));
        if !checked_credit_coin(native, more[k].clone()) {
            proof {
                if amounts_fit(credit_all(start, added)) {
                    lemma_fit_prefix(start, added, k + 1);
                }
            }
            return false;
        }
        k += 1;
    }
    assert(added.take(k as int) =~= added);
    proof {
        lemma_coins_fit(native@);
    }
    true
}

/// Merges a list of token amounts into a list of token amounts, in the
/// list's order, where the result fits. Where it does not, the answer is no
/// and the list is left with what was merged up to there.
pub(crate) fn checked_credit_tokens(
    cw20: &mut Vec<Cw20CoinVerified>,
    more: &Vec<Cw20CoinVerified>,
) -> (ok: bool)
    ensures
        ok == amounts_fit(credit_all(token_amounts(old(cw20)@), token_amounts(more@))),
        ok ==> token_amounts(final(cw20)@) == credit_all(
            token_amounts(old(cw20)@),
            token_amounts(more@),
        ),
{
    let ghost start = token_amounts(cw20@);
    let ghost added = token_amounts(more@);
    let mut k: usize = 0;
    while k < more.len()
        invariant
            k <= more.len(),
            added == token_amounts(more@),
            start == token_amounts(old(cw20)@),
            token_amounts(cw20@) == credit_all(start, added.take(k as int)),
        decreases more.len() - k,
    {
        assert(added.take(k + 1).drop_last() =~= added.take(k as int));
        if !checked_credit_token(cw20, more[k].clone()) {
            proof {
                if amounts_fit(credit_all(start, added)) {
                    lemma_fit_prefix(start, added, k + 1);
                }
            }
            return false;
        }
        k += 1;
    }
    assert(added.take(k as int) =~= added);
    proof {
        lemma_tokens_fit(cw20@);
    }
    true
}

/// Merges a list of coins into a list of coins, in the list's order.
pub(crate) fn credit_coins(native: &mut Vec<Coin>, more: &Vec<Coin>)
    requires
        amounts_fit(credit_all(coin_amounts(old(native)@), coin_amounts(more@))),
    ensures
        coin_amounts(final(native)@) == credit_all(
            coin_amounts(old(native)@),
            coin_amounts(more@),
        ),
{
    let _ = checked_credit_coins(native, more);
}

/// Merges a list of token amounts into a list of token amounts, in the
/// list's order.
pub(crate) fn credit_tokens(cw20: &mut Vec<Cw20CoinVerified>, more: &Vec<Cw20CoinVerified>)
    requires
        amounts_fit(credit_all(token_amounts(old(cw20)@), token_amounts(more@))),
    ensures
        token_amounts(final(cw20)@) == credit_all(
            token_amounts(old(cw20)@),
            token_amounts(more@),
        ),
{
    let _ = checked_credit_tokens(cw20, more);
}

/// The balance that a list of amounts adds up to: each merged in turn into
/// the empty balance.
pub open spec fn aggregate(amounts: Seq<BalanceView>) -> BalanceView
    decreases amounts.len(),
{
    if amounts.len() == 0 {
        BalanceView::empty()
    } else {
        aggregate(amounts.drop_last()).merge(amounts.last())
    }
}

/// What fits after a merge of balances fitted before it.
pub proof fn lemma_fit_before_merge(b: BalanceView, more: BalanceView)
    requires
        b.merge(more).fits(),
    ensures
        b.fits(),
{
    lemma_fit_prefix(b.native, more.native, 0);
    lemma_fit_prefix(b.cw20, more.cw20, 0);
}

/// Merging balances that hold no asset twice gives a balance that holds no
/// asset twice.
pub proof fn lemma_merge_distinct(b: BalanceView, more: BalanceView)
    ensures
        b.distinct() ==> b.merge(more).distinct(),
{
    if b.distinct() {
        lemma_credit_all_distinct(b.native, more.native);
        lemma_credit_all_distinct(b.cw20, more.cw20);
    }
}

/// Where the sum of a whole list fits, the sum of any front part fits.
pub proof fn lemma_aggregate_fit_prefix(amounts: Seq<BalanceView>, k: int)
    requires
        0 <= k <= amounts.len(),
        aggregate(amounts).fits(),
    ensures
        aggregate(amounts.take(k)).fits(),
    decreases amounts.len() - k,
{
    if k == amounts.len() {
        assert(amounts.take(k) =~= amounts);
    } else {
        lemma_aggregate_fit_prefix(amounts, k + 1);
        let longer = amounts.take(k + 1);
        assert(longer.drop_last() =~= amounts.take(k));
        lemma_fit_before_merge(aggregate(amounts.take(k)), longer.last());
    }
}

/// A sum of balances holds no asset twice.
pub proof fn lemma_aggregate_distinct(amounts: Seq<BalanceView>)
    ensures
        aggregate(amounts).distinct(),
    decreases amounts.len(),
{
    if amounts.len() > 0 {
        lemma_aggregate_distinct(amounts.drop_last());
        let front = aggregate(amounts.drop_last());
        lemma_credit_all_distinct(front.native, amounts.last().native);
        lemma_credit_all_distinct(front.cw20, amounts.last().cw20);
    }
}

/// Two lists hold the same: as many entries, and for each entry of the first
/// the same amount of its asset in the second.
pub open spec fn same_entries(a: Seq<AssetAmount>, b: Seq<AssetAmount>) -> bool {
    &&& a.len() == b.len()
    &&& forall|i: int|
        0 <= i < a.len() ==> holds(b, (#[trigger] a[i]).key) && held(b, a[i].key) == a[i].amount
}

/// How much of a denomination a list of coins holds in its first entry for
/// it, if it has one.
pub(crate) fn coin_amount_of(coins: &Vec<Coin>, denom: &String) -> (r: Option<u128>)
    ensures
        match r {
            Some(amount) => holds(coin_amounts(coins@), denom@) && held(
                coin_amounts(coins@),
                denom@,
            ) == amount,
            None => !holds(coin_amounts(coins@), denom@),
        },
{
    let ghost entries = coin_amounts(coins@);
    let mut i: usize = 0;
    while i < coins.len()
        invariant
            i <= coins.len(),
            entries == coin_amounts(coins@),
            forall|j: int| 0 <= j < i ==> (#[trigger] entries[j]).key != denom@,
        decreases coins.len() - i,
    {
        if coins[i].denom == *denom {
            proof {
                lemma_position_found(entries, denom@, i as int);
            }
            return Some(coins[i].amount);
        }
        i += 1;
    }
    proof {
        if holds(entries, denom@) {
            let p = position_of(entries, denom@);
            assert(entries[p].key != denom@);
        }
    }
    None
}

} // verus!
