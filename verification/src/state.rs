//! The escrow record, its milestones and balances, and the values that are
//! derived from the milestones.

use crate::asset::{
    aggregate, checked_credit_coins, checked_credit_tokens, coin_amounts, credit, credit_all,
    credit_coins, credit_token, credit_tokens, lemma_aggregate_fit_prefix, lemma_merge_distinct,
    token_amounts, AssetAmount, Balance, BalanceView, Coin, Cw20CoinVerified,
};
use crate::error::ContractError;
use crate::expiration::{expired, is_expired, later_of, latest, Env};
use crate::milestones::{
    all_completed, amounts, end_heights, end_times, is_first_with_id, lemma_outstanding_prefix,
    milestone_ids, milestone_summaries, milestone_summary, no_milestone_with_id, outstanding,
    remaining,
};
use crate::msg::{CreateMilestoneMsg, CreateMilestoneMsgView};
use crate::registry::{ascending, ids_view, Registry};
use crate::text::{decimal, decimal_string, same_text};
use crate::whitelist::{
    clone_texts, contains_text, has_no_duplicates, lemma_with_tokens, texts_view,
    whitelist_add_tokens, with_tokens,
};
use vstd::prelude::*;
use vstd::string::*;

verus! {

/// Native and token holdings side by side.
#[derive(Debug, PartialEq, Eq)]
pub struct GenericBalance {
    pub native: Vec<Coin>,
    pub cw20: Vec<Cw20CoinVerified>,
}

impl View for GenericBalance {
    type V = BalanceView;

    open spec fn view(&self) -> BalanceView {
        BalanceView { native: coin_amounts(self.native@), cw20: token_amounts(self.cw20@) }
    }
}

impl Default for GenericBalance {
    fn default() -> (b: Self)
        ensures
            b@ == BalanceView::empty(),
    {
        let b = GenericBalance { native: Vec::new(), cw20: Vec::new() };
        assert(b@.native =~= Seq::empty());
        assert(b@.cw20 =~= Seq::empty());
        b
    }
}

impl Clone for GenericBalance {
    fn clone(&self) -> (b: Self)
        ensures
            b.native@ == self.native@,
            b.cw20@ == self.cw20@,
    {
        let native = self.native.clone();
        let cw20 = self.cw20.clone();
        GenericBalance { native, cw20 }
    }
}

impl GenericBalance {
    /// Merges what a caller handed over into this balance. An asset that is
    /// already held grows in place; a new one is appended, so the order of
    /// first appearance is kept.
    pub fn add_tokens(&mut self, add: Balance)
        requires
            old(self)@.merge(add@).fits(),
        ensures
            final(self)@ == old(self)@.merge(add@),
            old(self)@.distinct() ==> final(self)@.distinct(),
    {
        proof {
            lemma_merge_distinct(self@, add@);
        }
        match add {
            Balance::Native(balance) => {
                credit_coins(&mut self.native, &balance);
            },
            Balance::Cw20(token) => {
                let ghost one = seq![token@];
                assert(one.drop_last() =~= Seq::<AssetAmount>::empty());
                assert(credit_all(token_amounts(self.cw20@), Seq::empty()) == token_amounts(
                    self.cw20@,
                ));
                credit_token(&mut self.cw20, token);
            },
        };
    }

    /// Merges another balance into this one: its native entries, then its
    /// token entries.
    pub fn merge_in(&mut self, more: &GenericBalance)
        requires
            old(self)@.merge(more@).fits(),
        ensures
            final(self)@ == old(self)@.merge(more@),
            old(self)@.distinct() ==> final(self)@.distinct(),
    {
        proof {
            lemma_merge_distinct(self@, more@);
        }
        credit_coins(&mut self.native, &more.native);
        credit_tokens(&mut self.cw20, &more.cw20);
    }

    /// Whether nothing is held.
    pub fn is_empty(&self) -> (r: bool)
        ensures
            r == self@.is_empty(),
    {
        self.native.is_empty() && self.cw20.is_empty()
    }

    /// Merges another balance into this one where the result fits. Where it
    /// does not, the answer is no and this balance is left with what was
    /// merged up to there.
    pub(crate) fn checked_merge_in(&mut self, more: &GenericBalance) -> (ok: bool)
        ensures
            ok == old(self)@.merge(more@).fits(),
            ok ==> final(self)@ == old(self)@.merge(more@),
    {
        if !checked_credit_coins(&mut self.native, &more.native) {
            return false;
        }
        checked_credit_tokens(&mut self.cw20, &more.cw20)
    }

    /// Whether two balances hold the same entries in the same order.
    pub fn same_as(&self, other: &GenericBalance) -> (r: bool)
        ensures
            r == (self@ == other@),
    {
        if self.native.len() != other.native.len() || self.cw20.len() != other.cw20.len() {
            assert(self@.native.len() != other@.native.len() || self@.cw20.len()
                != other@.cw20.len());
            return false;
        }
        let mut i: usize = 0;
        while i < self.native.len()
            invariant
                i <= self.native.len(),
                self.native.len() == other.native.len(),
                forall|j: int| 0 <= j < i ==> self@.native[j] == other@.native[j],
            decreases self.native.len() - i,
        {
            if !(self.native[i].denom == other.native[i].denom) || self.native[i].amount
                != other.native[i].amount {
                assert(self@.native[i as int] != other@.native[i as int]);
                return false;
            }
            i += 1;
        }
        let mut k: usize = 0;
        while k < self.cw20.len()
            invariant
                k <= self.cw20.len(),
                self.cw20.len() == other.cw20.len(),
                self@.native =~= other@.native,
                forall|j: int| 0 <= j < k ==> self@.cw20[j] == other@.cw20[j],
            decreases self.cw20.len() - k,
        {
            if !(self.cw20[k].address == other.cw20[k].address) || self.cw20[k].amount
                != other.cw20[k].amount {
                assert(self@.cw20[k as int] != other@.cw20[k as int]);
                return false;
            }
            k += 1;
        }
        assert(self@.cw20 =~= other@.cw20);
        true
    }

    /// What is stored fits: each amount is stored in 128 bits.
    pub proof fn lemma_fits(&self)
        ensures
            self@.fits(),
    {
        crate::asset::lemma_coins_fit(self.native@);
        crate::asset::lemma_tokens_fit(self.cw20@);
    }
}

/// Something that carries an amount.
pub trait HasAmount {
    /// The amount carried, as mathematics sees it.
    spec fn amount_view(&self) -> BalanceView;

    /// A copy of the amount carried.
    fn get_amount(&self) -> (b: GenericBalance)
        ensures
            b@ == self.amount_view(),
    ;
}

/// Something that carries optional deadlines.
pub trait HasEnd {
    /// The height deadline carried.
    spec fn end_height_of(&self) -> Option<u64>;

    /// The time deadline carried.
    spec fn end_time_of(&self) -> Option<u64>;

    fn get_end_height(&self) -> (h: Option<u64>)
        ensures
            h == self.end_height_of(),
    ;

    fn get_end_time(&self) -> (t: Option<u64>)
        ensures
            t == self.end_time_of(),
    ;
}

/// The amounts carried by a list of items, in the list's order.
pub open spec fn amounts_of<T: HasAmount>(items: Seq<T>) -> Seq<BalanceView> {
    Seq::new(items.len(), |i: int| items[i].amount_view())
}

/// The height deadlines carried by a list of items, in the list's order.
pub open spec fn end_heights_of<T: HasEnd>(items: Seq<T>) -> Seq<Option<u64>> {
    Seq::new(items.len(), |i: int| items[i].end_height_of())
}

/// The time deadlines carried by a list of items, in the list's order.
pub open spec fn end_times_of<T: HasEnd>(items: Seq<T>) -> Seq<Option<u64>> {
    Seq::new(items.len(), |i: int| items[i].end_time_of())
}

/// Adds up the amounts of all items, in their order, starting from the
/// empty balance.
pub fn get_total_balance_from<T: HasAmount>(milestones: Vec<T>) -> (total: GenericBalance)
    requires
        aggregate(amounts_of(milestones@)).fits(),
    ensures
        total@ == aggregate(amounts_of(milestones@)),
        total@.distinct(),
{
    let ghost amounts = amounts_of(milestones@);
    proof {
        crate::asset::lemma_aggregate_distinct(amounts);
    }
    let mut total_balance = GenericBalance::default();
    let mut k: usize = 0;
    while k < milestones.len()
        invariant
            k <= milestones.len(),
            amounts == amounts_of(milestones@),
            aggregate(amounts).fits(),
            total_balance@ == aggregate(amounts.take(k as int)),
        decreases milestones.len() - k,
    {
        let amount = milestones[k].get_amount();
        proof {
            lemma_aggregate_fit_prefix(amounts, k + 1);
            assert(amounts.take(k + 1).drop_last() =~= amounts.take(k as int));
        }
        total_balance.merge_in(&amount);
        k += 1;
    }
    assert(amounts.take(k as int) =~= amounts);
    total_balance
}

/// Adds up the amounts of all items, in their order, where the sum fits.
pub fn checked_total_balance_from<T: HasAmount>(milestones: &Vec<T>) -> (r: Option<
    GenericBalance,
>)
    ensures
        match r {
            Some(total) => aggregate(amounts_of(milestones@)).fits() && total@ == aggregate(
                amounts_of(milestones@),
            ),
            None => !aggregate(amounts_of(milestones@)).fits(),
        },
{
    let ghost amounts = amounts_of(milestones@);
    let mut total_balance = GenericBalance::default();
    let mut k: usize = 0;
    while k < milestones.len()
        invariant
            k <= milestones.len(),
            amounts == amounts_of(milestones@),
            total_balance@ == aggregate(amounts.take(k as int)),
        decreases milestones.len() - k,
    {
        let amount = milestones[k].get_amount();
        assert(amounts.take(k + 1).drop_last() =~= amounts.take(k as int));
        if !total_balance.checked_merge_in(&amount) {
            proof {
                if aggregate(amounts).fits() {
                    lemma_aggregate_fit_prefix(amounts, k + 1);
                }
            }
            return None;
        }
        k += 1;
    }
    assert(amounts.take(k as int) =~= amounts);
    proof {
        total_balance.lemma_fits();
    }
    Some(total_balance)
}

/// The latest height deadline among the items, absent where none sets one.
pub fn get_end_height<T: HasEnd>(milestones: Vec<T>) -> (h: Option<u64>)
    ensures
        h == latest(end_heights_of(milestones@)),
{
    let ghost all = end_heights_of(milestones@);
    let mut top: Option<u64> = None;
    let mut k: usize = 0;
    while k < milestones.len()
        invariant
            k <= milestones.len(),
            all == end_heights_of(milestones@),
            top == latest(all.take(k as int)),
        decreases milestones.len() - k,
    {
        assert(all.take(k + 1).drop_last() =~= all.take(k as int));
        top = later_of(top, milestones[k].get_end_height());
        k += 1;
    }
    assert(all.take(k as int) =~= all);
    top
}

/// The latest time deadline among the items, absent where none sets one.
pub fn get_end_time<T: HasEnd>(milestones: Vec<T>) -> (t: Option<u64>)
    ensures
        t == latest(end_times_of(milestones@)),
{
    let ghost all = end_times_of(milestones@);
    let mut top: Option<u64> = None;
    let mut k: usize = 0;
    while k < milestones.len()
        invariant
            k <= milestones.len(),
            all == end_times_of(milestones@),
            top == latest(all.take(k as int)),
        decreases milestones.len() - k,
    {
        assert(all.take(k + 1).drop_last() =~= all.take(k as int));
        top = later_of(top, milestones[k].get_end_time());
        k += 1;
    }
    assert(all.take(k as int) =~= all);
    top
}

/// A milestone, as mathematics sees it.
pub struct MilestoneView {
    pub id: Seq<char>,
    pub title: Seq<char>,
    pub description: Seq<char>,
    pub amount: BalanceView,
    pub end_height: Option<u64>,
    pub end_time: Option<u64>,
    pub is_completed: bool,
}

/// A part of an escrow with its own amount and its own optional deadlines.
#[derive(Debug, PartialEq, Eq)]
pub struct Milestone {
    /// Position of the milestone within its escrow, counted from one, as a
    /// decimal numeral.
    pub id: String,
    pub title: String,
    pub description: String,
    /// What is released when the milestone is approved.
    pub amount: GenericBalance,
    /// When set and the block height exceeds it, the milestone is expired.
    pub end_height: Option<u64>,
    /// When set (in seconds since the epoch) and the block time exceeds it,
    /// the milestone is expired.
    pub end_time: Option<u64>,
    pub is_completed: bool,
}

impl View for Milestone {
    type V = MilestoneView;

    open spec fn view(&self) -> MilestoneView {
        MilestoneView {
            id: self.id@,
            title: self.title@,
            description: self.description@,
            amount: self.amount@,
            end_height: self.end_height,
            end_time: self.end_time,
            is_completed: self.is_completed,
        }
    }
}

impl Clone for Milestone {
    fn clone(&self) -> (m: Self)
        ensures
            m@ == self@,
    {
        Milestone {
            id: self.id.clone(),
            title: self.title.clone(),
            description: self.description.clone(),
            amount: self.amount.clone(),
            end_height: self.end_height,
            end_time: self.end_time,
            is_completed: self.is_completed,
        }
    }
}

impl HasAmount for Milestone {
    open spec fn amount_view(&self) -> BalanceView {
        self.amount@
    }

    fn get_amount(&self) -> (b: GenericBalance) {
        self.amount.clone()
    }
}

impl HasEnd for Milestone {
    open spec fn end_height_of(&self) -> Option<u64> {
        self.end_height
    }

    open spec fn end_time_of(&self) -> Option<u64> {
        self.end_time
    }

    fn get_end_time(&self) -> (t: Option<u64>) {
        self.end_time
    }

    fn get_end_height(&self) -> (h: Option<u64>) {
        self.end_height
    }
}

/// Order of optional deadlines in which an absent one comes before every
/// deadline that is set.
pub open spec fn deadline_before(a: Option<u64>, b: Option<u64>) -> bool {
    match (a, b) {
        (None, Some(_)) => true,
        (Some(x), Some(y)) => x < y,
        _ => false,
    }
}

/// Decides the order of optional deadlines.
fn is_deadline_before(a: Option<u64>, b: Option<u64>) -> (r: bool)
    ensures
        r == deadline_before(a, b),
{
    match (a, b) {
        (None, Some(_)) => true,
        (Some(x), Some(y)) => x < y,
        _ => false,
    }
}

impl Milestone {
    /// Whether the milestone's amount holds nothing.
    pub fn is_empty(&self) -> (r: bool)
        ensures
            r == self@.amount.is_empty(),
    {
        self.amount.is_empty()
    }

    /// Whether one of the milestone's deadlines has passed at `env`.
    pub fn is_expired(&self, env: &Env) -> (r: bool)
        ensures
            r == expired(self.end_height, self.end_time, *env),
    {
        is_expired(self.end_height, self.end_time, env)
    }

    /// Moves the deadlines forward. Nothing changes where one of the two
    /// arguments comes before the deadline it would replace, an absent
    /// argument coming before every deadline that is set. Otherwise each
    /// argument that is set replaces its deadline.
    pub fn extend_expiration(&mut self, end_height: Option<u64>, end_time: Option<u64>)
        ensures
            deadline_before(end_height, old(self).end_height) || deadline_before(
                end_time,
                old(self).end_time,
            ) ==> *final(self) == *old(self),
            !deadline_before(end_height, old(self).end_height) && !deadline_before(
                end_time,
                old(self).end_time,
            ) ==> *final(self) == (Milestone {
                end_height: if end_height is Some {
                    end_height
                } else {
                    old(self).end_height
                },
                end_time: if end_time is Some {
                    end_time
                } else {
                    old(self).end_time
                },
                ..*old(self)
            }),
    {
        if is_deadline_before(end_height, self.end_height) || is_deadline_before(
            end_time,
            self.end_time,
        ) {
            return ;
        }
        if let Some(height) = end_height {
            self.end_height = Some(height);
        }
        if let Some(time) = end_time {
            self.end_time = Some(time);
        }
    }
}

/// The views of a list of milestones, in the list's order.
pub open spec fn milestones_view(milestones: Seq<Milestone>) -> Seq<MilestoneView> {
    Seq::new(milestones.len(), |i: int| milestones[i]@)
}

/// Copies a list of milestones.
pub(crate) fn clone_milestones(milestones: &Vec<Milestone>) -> (copy: Vec<Milestone>)
    ensures
        milestones_view(copy@) == milestones_view(milestones@),
{
    let mut copy: Vec<Milestone> = Vec::new();
    let mut k: usize = 0;
    while k < milestones.len()
        invariant
            k <= milestones.len(),
            copy.len() == k,
            forall|i: int| 0 <= i < k ==> (#[trigger] copy[i])@ == milestones[i]@,
        decreases milestones.len() - k,
    {
        copy.push(milestones[k].clone());
        k += 1;
    }
    copy
}

/// An escrow, as mathematics sees it.
pub struct EscrowView {
    pub arbiter: Seq<char>,
    pub recipient: Option<Seq<char>>,
    pub source: Seq<char>,
    pub title: Seq<char>,
    pub description: Seq<char>,
    pub end_height: Option<u64>,
    pub end_time: Option<u64>,
    pub balance: BalanceView,
    pub cw20_whitelist: Seq<Seq<char>>,
    pub milestones: Seq<MilestoneView>,
}

/// The milestone that a request describes, at the position `index`
/// (counted from zero) of its escrow: not completed, and named by its
/// position counted from one.
pub open spec fn new_milestone(index: nat, m: CreateMilestoneMsgView) -> MilestoneView {
    MilestoneView {
        id: decimal(index + 1),
        title: m.title,
        description: m.description,
        amount: m.amount,
        end_height: m.end_height,
        end_time: m.end_time,
        is_completed: false,
    }
}

impl EscrowView {
    /// The escrow with one more milestone at its end, and with the token
    /// contracts of that milestone's amount on the whitelist.
    pub open spec fn with_milestone(self, m: CreateMilestoneMsgView) -> EscrowView {
        EscrowView {
            milestones: self.milestones.push(new_milestone(self.milestones.len(), m)),
            cw20_whitelist: with_tokens(self.cw20_whitelist, m.amount.cw20),
            ..self
        }
    }

    /// The escrow with the values that follow from its milestones set anew.
    pub open spec fn recalculated(self) -> EscrowView {
        EscrowView {
            balance: remaining(self.milestones),
            end_height: latest(end_heights(self.milestones)),
            end_time: latest(end_times(self.milestones)),
            ..self
        }
    }

    /// Every token contract of every milestone amount is on the whitelist.
    pub open spec fn tokens_whitelisted(self) -> bool {
        forall|i: int, j: int|
            0 <= i < self.milestones.len() && 0 <= j < self.milestones[i].amount.cw20.len()
                ==> self.cw20_whitelist.contains(
                (#[trigger] self.milestones[i].amount.cw20[j]).key,
            )
    }

    /// Milestones are named by their positions, counted from one.
    pub open spec fn ids_sequential(self) -> bool {
        forall|i: int|
            0 <= i < self.milestones.len() ==> (#[trigger] self.milestones[i]).id == decimal(
                (i + 1) as nat,
            )
    }

    /// What holds of every escrow that is stored: it has a milestone that is
    /// not completed; milestones are named by position; the balance is the
    /// sum of the amounts of the milestones not yet completed; each deadline
    /// is the latest of the milestones' deadlines; every token contract of a
    /// milestone amount is on the whitelist, which names no contract twice.
    pub open spec fn wf(self) -> bool {
        &&& self.milestones.len() >= 1
        &&& !all_completed(self.milestones)
        &&& self.ids_sequential()
        &&& self.balance == remaining(self.milestones)
        &&& self.end_height == latest(end_heights(self.milestones))
        &&& self.end_time == latest(end_times(self.milestones))
        &&& self.tokens_whitelisted()
        &&& self.cw20_whitelist.no_duplicates()
    }
}

/// Appending a milestone keeps what holds of the milestones of a stored
/// escrow: ids by position, token contracts on the whitelist, no contract
/// listed twice. The new milestone is not completed, so its amount and its
/// deadlines are appended to those that count.
pub proof fn lemma_with_milestone(e: EscrowView, m: CreateMilestoneMsgView)
    requires
        e.ids_sequential(),
        e.tokens_whitelisted(),
        e.cw20_whitelist.no_duplicates(),
    ensures
        e.with_milestone(m).ids_sequential(),
        e.with_milestone(m).tokens_whitelisted(),
        e.with_milestone(m).cw20_whitelist.no_duplicates(),
        !all_completed(e.with_milestone(m).milestones),
        outstanding(e.with_milestone(m).milestones) == outstanding(e.milestones).push(m.amount),
        end_heights(e.with_milestone(m).milestones) == end_heights(e.milestones).push(
            m.end_height,
        ),
        end_times(e.with_milestone(m).milestones) == end_times(e.milestones).push(m.end_time),
{
    let after = e.with_milestone(m);
    let n = e.milestones.len() as int;
    lemma_with_tokens(e.cw20_whitelist, m.amount.cw20);
    assert(after.milestones.drop_last() =~= e.milestones);
    assert(!after.milestones[n].is_completed);
    assert forall|i: int, j: int|
        0 <= i < after.milestones.len() && 0 <= j < after.milestones[i].amount.cw20.len()
        implies after.cw20_whitelist.contains(
        (#[trigger] after.milestones[i].amount.cw20[j]).key,
    ) by {
        if i < n {
            assert(e.cw20_whitelist.contains(e.milestones[i].amount.cw20[j].key));
        } else {
            assert(after.cw20_whitelist.contains(m.amount.cw20[j].key));
        }
    }
}

/// A record of funds held for a recipient until an arbiter approves the
/// milestones, or until they go back to where they came from.
#[derive(Debug, PartialEq, Eq)]
pub struct Escrow {
    /// Who may approve milestones, extend them, set the recipient, and
    /// refund before expiry.
    pub arbiter: String,
    /// Who receives what is released; nothing is released while unset.
    pub recipient: Option<String>,
    /// Who funded the escrow and receives refunds.
    pub source: String,
    pub title: String,
    pub description: String,
    /// When set and the block height exceeds it, the escrow is expired.
    pub end_height: Option<u64>,
    /// When set (in seconds since the epoch) and the block time exceeds it,
    /// the escrow is expired.
    pub end_time: Option<u64>,
    /// What the escrow holds: the sum of the amounts of the milestones that
    /// are not completed yet.
    pub balance: GenericBalance,
    /// Token contracts from which amounts are accepted.
    pub cw20_whitelist: Vec<String>,
    pub milestones: Vec<Milestone>,
}

impl View for Escrow {
    type V = EscrowView;

    open spec fn view(&self) -> EscrowView {
        EscrowView {
            arbiter: self.arbiter@,
            recipient: match self.recipient {
                Some(r) => Some(r@),
                None => None,
            },
            source: self.source@,
            title: self.title@,
            description: self.description@,
            end_height: self.end_height,
            end_time: self.end_time,
            balance: self.balance@,
            cw20_whitelist: texts_view(self.cw20_whitelist@),
            milestones: milestones_view(self.milestones@),
        }
    }
}

impl Clone for Escrow {
    fn clone(&self) -> (e: Self)
        ensures
            e@ == self@,
    {
        Escrow {
            arbiter: self.arbiter.clone(),
            recipient: match &self.recipient {
                Some(r) => Some(r.clone()),
                None => None,
            },
            source: self.source.clone(),
            title: self.title.clone(),
            description: self.description.clone(),
            end_height: self.end_height,
            end_time: self.end_time,
            balance: self.balance.clone(),
            cw20_whitelist: clone_texts(&self.cw20_whitelist),
            milestones: clone_milestones(&self.milestones),
        }
    }
}

impl Escrow {
    /// Whether one of the escrow's deadlines has passed at `env`.
    pub fn is_expired(&self, env: &Env) -> (r: bool)
        ensures
            r == expired(self.end_height, self.end_time, *env),
    {
        is_expired(self.end_height, self.end_time, env)
    }

    /// Whether every milestone is completed.
    pub fn is_complete(&self) -> (r: bool)
        ensures
            r == all_completed(self@.milestones),
    {
        let mut k: usize = 0;
        while k < self.milestones.len()
            invariant
                k <= self.milestones.len(),
                forall|i: int| 0 <= i < k ==> (#[trigger] self@.milestones[i]).is_completed,
            decreases self.milestones.len() - k,
        {
            if !self.milestones[k].is_completed {
                assert(!self@.milestones[k as int].is_completed);
                return false;
            }
            k += 1;
        }
        true
    }

    /// The whitelist as texts.
    pub fn human_whitelist(&self) -> (list: Vec<String>)
        ensures
            texts_view(list@) == self@.cw20_whitelist,
    {
        clone_texts(&self.cw20_whitelist)
    }

    /// One describing text for each milestone.
    pub fn human_milestones(&self) -> (list: Vec<String>)
        ensures
            texts_view(list@) == milestone_summaries(self@.milestones),
    {
        let mut list: Vec<String> = Vec::new();
        let mut k: usize = 0;
        while k < self.milestones.len()
            invariant
                k <= self.milestones.len(),
                list.len() == k,
                forall|i: int|
                    0 <= i < k ==> (#[trigger] list[i])@ == milestone_summary(
                        self@.milestones[i],
                    ),
            decreases self.milestones.len() - k,
        {
            let m = &self.milestones[k];
            let mut text = "id: ".to_owned();
            text.append(m.id.as_str());
            text.append("\ntitle: ");
            text.append(m.title.as_str());
            text.append("\ndescription: ");
            text.append(m.description.as_str());
            text.append("\ncomplete: ");
            if m.is_completed {
                text.append("true");
            } else {
                text.append("false");
            }
            list.push(text);
            k += 1;
        }
        list
    }

    /// Appends the milestone that a request describes. Its id is its
    /// position, counted from one; the token contracts of its amount go on
    /// the whitelist.
    pub fn create_milestone(&mut self, milestone: CreateMilestoneMsg)
        ensures
            final(self)@ == old(self)@.with_milestone(milestone@),
    {
        let id = decimal_string(self.milestones.len() as u128 + 1);
        whitelist_add_tokens(&mut self.cw20_whitelist, &milestone.amount.cw20);
        self.milestones.push(
            Milestone {
                id,
                title: milestone.title,
                description: milestone.description,
                amount: milestone.amount,
                is_completed: false,
                end_height: milestone.end_height,
                end_time: milestone.end_time,
            },
        );
        assert(final(self)@.milestones =~= old(self)@.with_milestone(milestone@).milestones);
    }

    /// Where the first milestone with the given id stands.
    pub fn milestone_position(&self, id: &str) -> (r: Option<usize>)
        ensures
            match r {
                Some(i) => is_first_with_id(self@.milestones, id@, i as int),
                None => no_milestone_with_id(self@.milestones, id@),
            },
    {
        let mut k: usize = 0;
        while k < self.milestones.len()
            invariant
                k <= self.milestones.len(),
                forall|j: int| 0 <= j < k ==> (#[trigger] self@.milestones[j]).id != id@,
            decreases self.milestones.len() - k,
        {
            if same_text(self.milestones[k].id.as_str(), id) {
                return Some(k);
            }
            k += 1;
        }
        None
    }

    /// The first milestone with the given id.
    pub fn get_milestone_by_id(&self, id: &str) -> (r: Option<&Milestone>)
        ensures
            match r {
                Some(m) => exists|i: int|
                    is_first_with_id(self@.milestones, id@, i) && m@ == self@.milestones[i],
                None => no_milestone_with_id(self@.milestones, id@),
            },
    {
        match self.milestone_position(id) {
            Some(i) => {
                Some(&self.milestones[i])
            },
            None => None,
        }
    }

    /// The sum of the amounts of all milestones, completed or not.
    pub fn get_total_balance(&self) -> (total: GenericBalance)
        requires
            aggregate(amounts(self@.milestones)).fits(),
        ensures
            total@ == aggregate(amounts(self@.milestones)),
    {
        let copy = clone_milestones(&self.milestones);
        assert(amounts_of(copy@) =~= amounts(self@.milestones));
        get_total_balance_from(copy)
    }

    /// The sum of the amounts of the milestones that are not completed yet.
    pub fn get_remaining_balance(&self) -> (rest: GenericBalance)
        requires
            remaining(self@.milestones).fits(),
        ensures
            rest@ == remaining(self@.milestones),
    {
        let ghost all = self@.milestones;
        let mut rest = GenericBalance::default();
        let mut k: usize = 0;
        while k < self.milestones.len()
            invariant
                k <= self.milestones.len(),
                all == self@.milestones,
                remaining(all).fits(),
                rest@ == remaining(all.take(k as int)),
            decreases self.milestones.len() - k,
        {
            proof {
                let n = lemma_outstanding_prefix(all, k + 1);
                lemma_aggregate_fit_prefix(outstanding(all), n);
                assert(all.take(k + 1).drop_last() =~= all.take(k as int));
                assert(outstanding(all.take(k as int)).push(all[k as int].amount).drop_last()
                    =~= outstanding(all.take(k as int)));
            }
            if !self.milestones[k].is_completed {
                rest.merge_in(&self.milestones[k].amount);
            }
            k += 1;
        }
        assert(all.take(k as int) =~= all);
        rest
    }

    /// The latest height deadline among the milestones.
    pub fn get_end_height(&self) -> (h: Option<u64>)
        ensures
            h == latest(end_heights(self@.milestones)),
    {
        let copy = clone_milestones(&self.milestones);
        assert(end_heights_of(copy@) =~= end_heights(self@.milestones));
        get_end_height(copy)
    }

    /// The latest time deadline among the milestones.
    pub fn get_end_time(&self) -> (t: Option<u64>)
        ensures
            t == latest(end_times(self@.milestones)),
    {
        let copy = clone_milestones(&self.milestones);
        assert(end_times_of(copy@) =~= end_times(self@.milestones));
        get_end_time(copy)
    }

    /// Sets the balance and the deadlines anew from the milestones.
    pub fn update_calculated_properties(&mut self)
        requires
            remaining(old(self)@.milestones).fits(),
        ensures
            final(self)@ == old(self)@.recalculated(),
    {
        self.balance = self.get_remaining_balance();
        self.end_height = self.get_end_height();
        self.end_time = self.get_end_time();
    }

    /// The sum of the amounts of the milestones that are not completed yet,
    /// where it fits.
    pub fn checked_remaining_balance(&self) -> (r: Option<GenericBalance>)
        ensures
            match r {
                Some(rest) => remaining(self@.milestones).fits() && rest@ == remaining(
                    self@.milestones,
                ),
                None => !remaining(self@.milestones).fits(),
            },
    {
        let ghost all = self@.milestones;
        let mut rest = GenericBalance::default();
        let mut k: usize = 0;
        while k < self.milestones.len()
            invariant
                k <= self.milestones.len(),
                all == self@.milestones,
                rest@ == remaining(all.take(k as int)),
            decreases self.milestones.len() - k,
        {
            proof {
                assert(all.take(k + 1).drop_last() =~= all.take(k as int));
                assert(outstanding(all.take(k as int)).push(all[k as int].amount).drop_last()
                    =~= outstanding(all.take(k as int)));
            }
            if !self.milestones[k].is_completed {
                if !rest.checked_merge_in(&self.milestones[k].amount) {
                    proof {
                        if remaining(all).fits() {
                            let n = lemma_outstanding_prefix(all, k + 1);
                            lemma_aggregate_fit_prefix(outstanding(all), n);
                        }
                    }
                    return None;
                }
            }
            k += 1;
        }
        assert(all.take(k as int) =~= all);
        proof {
            rest.lemma_fits();
        }
        Some(rest)
    }

    /// Whether the milestones are named by their positions.
    fn has_sequential_ids(&self) -> (r: bool)
        ensures
            r == self@.ids_sequential(),
    {
        let mut k: usize = 0;
        while k < self.milestones.len()
            invariant
                k <= self.milestones.len(),
                forall|i: int|
                    0 <= i < k ==> (#[trigger] self@.milestones[i]).id == decimal((i + 1) as nat),
            decreases self.milestones.len() - k,
        {
            let expected = decimal_string(k as u128 + 1);
            if !same_text(self.milestones[k].id.as_str(), expected.as_str()) {
                assert(self@.milestones[k as int].id != decimal((k + 1) as nat));
                return false;
            }
            k += 1;
        }
        true
    }

    /// Whether the whitelist covers the token contracts of the milestones.
    fn has_tokens_whitelisted(&self) -> (r: bool)
        ensures
            r == self@.tokens_whitelisted(),
    {
        let mut i: usize = 0;
        while i < self.milestones.len()
            invariant
                i <= self.milestones.len(),
                forall|a: int, b: int|
                    0 <= a < i && 0 <= b < self@.milestones[a].amount.cw20.len()
                        ==> self@.cw20_whitelist.contains(
                        (#[trigger] self@.milestones[a].amount.cw20[b]).key,
                    ),
            decreases self.milestones.len() - i,
        {
            let tokens = &self.milestones[i].amount.cw20;
            let mut j: usize = 0;
            while j < tokens.len()
                invariant
                    j <= tokens.len(),
                    i < self.milestones.len(),
                    tokens@ == self.milestones@[i as int].amount.cw20@,
                    forall|b: int|
                        0 <= b < j ==> self@.cw20_whitelist.contains(
                            (#[trigger] self@.milestones[i as int].amount.cw20[b]).key,
                        ),
                decreases tokens.len() - j,
            {
                if !contains_text(&self.cw20_whitelist, &tokens[j].address) {
                    assert(self@.milestones[i as int].amount.cw20[j as int].key
                        == tokens@[j as int].address@);
                    return false;
                }
                j += 1;
            }
            i += 1;
        }
        true
    }

    /// Whether the escrow is as every stored escrow is: with an open
    /// milestone, ids by position, the balance and the deadlines that
    /// follow from the milestones, and a whitelist that covers the
    /// milestones' token contracts and names none twice.
    pub fn is_well_formed(&self) -> (r: bool)
        ensures
            r == self@.wf(),
    {
        if self.milestones.len() == 0 || self.is_complete() {
            return false;
        }
        if !self.has_sequential_ids() {
            return false;
        }
        let balance_ok = match self.checked_remaining_balance() {
            Some(rest) => rest.same_as(&self.balance),
            None => {
                proof {
                    self.balance.lemma_fits();
                }
                false
            },
        };
        if !balance_ok {
            return false;
        }
        let top_height = self.get_end_height();
        let top_time = self.get_end_time();
        let heights_ok = match (self.end_height, top_height) {
            (Some(a), Some(b)) => a == b,
            (None, None) => true,
            _ => false,
        };
        let times_ok = match (self.end_time, top_time) {
            (Some(a), Some(b)) => a == b,
            (None, None) => true,
            _ => false,
        };
        if !heights_ok || !times_ok {
            return false;
        }
        self.has_tokens_whitelisted() && has_no_duplicates(&self.cw20_whitelist)
    }
}

/// Every escrow on record is well formed.
pub open spec fn escrows_wf(store: Map<Seq<char>, EscrowView>) -> bool {
    forall|id: Seq<char>| store.contains_key(id) ==> (#[trigger] store[id]).wf()
}

/// A copy of the escrow on record under the id.
pub fn get_escrow_by_id(store: &Registry, id: &String) -> (r: Result<Escrow, ContractError>)
    ensures
        match r {
            Ok(escrow) => store@.contains_key(id@) && escrow@ == store@[id@],
            Err(e) => !store@.contains_key(id@) && e == ContractError::NotFound,
        },
{
    store.load(id.as_str())
}

/// The ids of all escrows on record, in ascending order.
pub fn all_escrow_ids(store: &Registry) -> (ids: Vec<String>)
    ensures
        ascending(ids_view(ids@)),
        forall|k: Seq<char>| store@.contains_key(k) <==> ids_view(ids@).contains(k),
{
    store.list_ids()
}

/// The ids of the milestones of an escrow, in the milestones' order.
pub fn all_escrow_milestone_ids(store: &Registry, escrow_id: &str) -> (r: Result<
    Vec<String>,
    ContractError,
>)
    ensures
        match r {
            Ok(ids) => store@.contains_key(escrow_id@) && texts_view(ids@) == milestone_ids(
                store@[escrow_id@].milestones,
            ),
            Err(e) => !store@.contains_key(escrow_id@) && e == ContractError::NotFound,
        },
{
    let escrow = match store.load(escrow_id) {
        Ok(escrow) => escrow,
        Err(e) => {
            return Err(e);
        },
    };
    let mut ids: Vec<String> = Vec::new();
    let mut k: usize = 0;
    while k < escrow.milestones.len()
        invariant
            k <= escrow.milestones.len(),
            ids.len() == k,
            forall|i: int| 0 <= i < k ==> (#[trigger] ids[i])@ == escrow@.milestones[i].id,
        decreases escrow.milestones.len() - k,
    {
        ids.push(escrow.milestones[k].id.clone());
        k += 1;
    }
    Ok(ids)
}

} // verus!
