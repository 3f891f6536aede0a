//! Requests and responses of the escrow operations.

use crate::asset::{
    aggregate, coin_amount_of, coin_amounts, same_entries, AssetAmount, Balance, BalanceView, Coin,
    Cw20Coin,
};
use crate::error::ContractError;
use crate::expiration::latest;
use crate::state::{
    amounts_of, end_heights_of, end_times_of, get_end_height, get_end_time, get_total_balance_from,
    milestones_view, EscrowView, GenericBalance, HasAmount, HasEnd, Milestone,
};
use crate::transfer::{transfers_view, TransferMsg, TransferView};
use crate::whitelist::texts_view;
use vstd::prelude::*;
use vstd::string::*;

verus! {

/// Shortest accepted escrow identifier, in bytes.
pub const MIN_NAME_BYTES: usize = 3;

/// Longest accepted escrow identifier, in bytes.
pub const MAX_NAME_BYTES: usize = 20;

/// Whether a byte length is acceptable for an escrow identifier.
pub open spec fn valid_name_len(len: nat) -> bool {
    MIN_NAME_BYTES <= len <= MAX_NAME_BYTES
}

/// An escrow identifier is valid when its UTF-8 encoding has between
/// three and twenty bytes.
pub fn is_valid_name(name: &str) -> (ok: bool)
    ensures
        ok == valid_name_len(name.spec_bytes().len()),
{
    let n: usize = name.as_bytes().len();
    !(n < MIN_NAME_BYTES || n > MAX_NAME_BYTES)
}

/// An account named in a request, after the host's identity validator has
/// judged the text: accepted, under the text that stands for the account
/// from then on, or rejected.
#[derive(Debug, PartialEq, Eq)]
pub enum Account {
    Valid(String),
    Invalid,
}

/// An account of a request, as mathematics sees it: the accepted text, or
/// nothing where the validator rejected it.
pub open spec fn account_view(a: Account) -> Option<Seq<char>> {
    match a {
        Account::Valid(text) => Some(text@),
        Account::Invalid => None,
    }
}

impl Clone for Account {
    fn clone(&self) -> (a: Self)
        ensures
            a == *self,
    {
        match self {
            Account::Valid(text) => Account::Valid(text.clone()),
            Account::Invalid => Account::Invalid,
        }
    }
}

/// Nothing is needed to set the registry up.
#[derive(Debug, Clone, Copy, PartialEq, Eq)]
pub struct InstantiateMsg {}

/// A milestone as a request describes it.
pub struct CreateMilestoneMsgView {
    pub escrow_id: Seq<char>,
    pub title: Seq<char>,
    pub description: Seq<char>,
    pub amount: BalanceView,
    pub end_height: Option<u64>,
    pub end_time: Option<u64>,
}

/// Asks for one more milestone in an escrow.
#[derive(Debug, PartialEq, Eq)]
pub struct CreateMilestoneMsg {
    /// The escrow that gets the milestone.
    pub escrow_id: String,
    pub title: String,
    /// What has to be met for the milestone.
    pub description: String,
    /// What is released when the milestone is approved.
    pub amount: GenericBalance,
    /// When set and the block height exceeds it, the milestone is expired.
    pub end_height: Option<u64>,
    /// When set (in seconds since the epoch) and the block time exceeds it,
    /// the milestone is expired.
    pub end_time: Option<u64>,
}

impl View for CreateMilestoneMsg {
    type V = CreateMilestoneMsgView;

    open spec fn view(&self) -> CreateMilestoneMsgView {
        CreateMilestoneMsgView {
            escrow_id: self.escrow_id@,
            title: self.title@,
            description: self.description@,
            amount: self.amount@,
            end_height: self.end_height,
            end_time: self.end_time,
        }
    }
}

impl Clone for CreateMilestoneMsg {
    fn clone(&self) -> (m: Self)
        ensures
            m@ == self@,
    {
        CreateMilestoneMsg {
            escrow_id: self.escrow_id.clone(),
            title: self.title.clone(),
            description: self.description.clone(),
            amount: self.amount.clone(),
            end_height: self.end_height,
            end_time: self.end_time,
        }
    }
}

impl HasAmount for CreateMilestoneMsg {
    open spec fn amount_view(&self) -> BalanceView {
        self.amount@
    }

    fn get_amount(&self) -> (b: GenericBalance) {
        self.amount.clone()
    }
}

impl HasEnd for CreateMilestoneMsg {
    open spec fn end_height_of(&self) -> Option<u64> {
        self.end_height
    }

    open spec fn end_time_of(&self) -> Option<u64> {
        self.end_time
    }

    fn get_end_time(&self) -> (t: Option<u64>) {
        self.end_time
    }

    fn get_end_height(&self) -> (h: Option<u64>) {
        self.end_height
    }
}

/// The milestones of a request, as mathematics sees them.
pub open spec fn milestone_msgs_view(msgs: Seq<CreateMilestoneMsg>) -> Seq<
    CreateMilestoneMsgView,
> {
    Seq::new(msgs.len(), |i: int| msgs[i]@)
}

/// Copies a list of milestone requests.
pub(crate) fn clone_milestone_msgs(msgs: &Vec<CreateMilestoneMsg>) -> (copy: Vec<
    CreateMilestoneMsg,
>)
    ensures
        milestone_msgs_view(copy@) == milestone_msgs_view(msgs@),
        amounts_of(copy@) == amounts_of(msgs@),
        end_heights_of(copy@) == end_heights_of(msgs@),
        end_times_of(copy@) == end_times_of(msgs@),
{
    let mut copy: Vec<CreateMilestoneMsg> = Vec::new();
    let mut k: usize = 0;
    while k < msgs.len()
        invariant
            k <= msgs.len(),
            copy.len() == k,
            forall|i: int| 0 <= i < k ==> (#[trigger] copy[i])@ == msgs[i]@,
        decreases msgs.len() - k,
    {
        copy.push(msgs[k].clone());
        k += 1;
    }
    copy
}

/// The accounts of a list, as mathematics sees them.
pub open spec fn accounts_view(accounts: Seq<Account>) -> Seq<Option<Seq<char>>> {
    Seq::new(accounts.len(), |i: int| account_view(accounts[i]))
}

/// The validator accepted every account of the list.
pub open spec fn all_accepted(accounts: Seq<Option<Seq<char>>>) -> bool {
    forall|i: int| 0 <= i < accounts.len() ==> (#[trigger] accounts[i]) is Some
}

/// The texts under which the accounts of a list were accepted.
pub open spec fn accepted_texts(accounts: Seq<Option<Seq<char>>>) -> Seq<Seq<char>> {
    Seq::new(accounts.len(), |i: int| accounts[i]->0)
}

/// The amounts of the milestones that a request describes.
pub open spec fn requested_amounts(msgs: Seq<CreateMilestoneMsgView>) -> Seq<BalanceView> {
    Seq::new(msgs.len(), |i: int| msgs[i].amount)
}

/// The height deadlines of the milestones that a request describes.
pub open spec fn requested_end_heights(msgs: Seq<CreateMilestoneMsgView>) -> Seq<Option<u64>> {
    Seq::new(msgs.len(), |i: int| msgs[i].end_height)
}

/// The time deadlines of the milestones that a request describes.
pub open spec fn requested_end_times(msgs: Seq<CreateMilestoneMsgView>) -> Seq<Option<u64>> {
    Seq::new(msgs.len(), |i: int| msgs[i].end_time)
}

/// How strictly the funds that come with a new escrow are held against
/// what its milestones add up to.
#[derive(Debug, Clone, Copy, PartialEq, Eq, Structural)]
pub enum DepositCheck {
    /// Only the first entry counts: the first coin handed over has the
    /// amount of the first native entry of the sum, or the token amount
    /// handed over is that of the first token entry of the sum.
    FirstEntry,
    /// Everything counts: what is handed over holds exactly what the sum
    /// holds, asset by asset.
    WholeBalance,
}

/// The first entry of what was handed over has the amount of the first
/// entry of the same kind in `total`.
pub open spec fn first_entry_matches(total: BalanceView, deposit: BalanceView) -> bool {
    if deposit.cw20.len() > 0 {
        total.cw20.len() > 0 && deposit.cw20[0].amount == total.cw20[0].amount
    } else {
        total.native.len() > 0 && deposit.native.len() > 0 && deposit.native[0].amount
            == total.native[0].amount
    }
}

/// What was handed over holds exactly what `total` holds.
pub open spec fn whole_balance_matches(total: BalanceView, deposit: BalanceView) -> bool {
    same_entries(total.native, deposit.native) && same_entries(total.cw20, deposit.cw20)
}

/// What was handed over passes the check against `total`.
pub open spec fn deposit_matches(check: DepositCheck, total: BalanceView, deposit: BalanceView)
    -> bool {
    match check {
        DepositCheck::FirstEntry => first_entry_matches(total, deposit),
        DepositCheck::WholeBalance => whole_balance_matches(total, deposit),
    }
}

/// Decides whether what was handed over holds exactly what `total` holds.
pub fn is_whole_balance(total: &GenericBalance, deposit: &Balance) -> (r: bool)
    ensures
        r == whole_balance_matches(total@, deposit@),
{
    match deposit {
        Balance::Native(coins) => {
            if total.cw20.len() != 0 || total.native.len() != coins.len() {
                return false;
            }
            let mut k: usize = 0;
            while k < total.native.len()
                invariant
                    k <= total.native.len(),
                    total.cw20.len() == 0,
                    total.native.len() == coins.len(),
                    deposit@ == (BalanceView {
                        native: coin_amounts(coins@),
                        cw20: Seq::empty(),
                    }),
                    forall|i: int|
                        0 <= i < k ==> crate::asset::holds(
                            coin_amounts(coins@),
                            (#[trigger] total@.native[i]).key,
                        ) && crate::asset::held(coin_amounts(coins@), total@.native[i].key)
                            == total@.native[i].amount,
                decreases total.native.len() - k,
            {
                let found = coin_amount_of(coins, &total.native[k].denom);
                let ghost entry = total@.native[k as int];
                match found {
                    Some(amount) => {
                        if amount != total.native[k].amount {
                            assert(crate::asset::held(coin_amounts(coins@), entry.key)
                                != entry.amount);
                            return false;
                        }
                    },
                    None => {
                        assert(!crate::asset::holds(coin_amounts(coins@), entry.key));
                        return false;
                    },
                }
                k += 1;
            }
            true
        },
        Balance::Cw20(token) => {
            if total.native.len() != 0 || total.cw20.len() != 1 {
                return false;
            }
            let ghost one = seq![token@];
            let ghost entry = total@.cw20[0];
            if total.cw20[0].address == token.address {
                proof {
                    crate::asset::lemma_position_found(one, entry.key, 0);
                }
                total.cw20[0].amount == token.amount
            } else {
                proof {
                    if crate::asset::holds(one, entry.key) {
                        let p = crate::asset::position_of(one, entry.key);
                        assert(crate::asset::is_first_position(one, entry.key, p));
                    }
                }
                false
            }
        },
    }
}

/// A request for a new escrow, as mathematics sees it.
pub struct CreateMsgView {
    pub id: Seq<char>,
    /// The arbiter's text, where the validator accepted it.
    pub arbiter: Option<Seq<char>>,
    /// The recipient's text, where one was named and the validator accepted it.
    pub recipient: Option<Seq<char>>,
    pub title: Seq<char>,
    pub description: Seq<char>,
    pub cw20_whitelist: Option<Seq<Option<Seq<char>>>>,
    pub milestones: Seq<CreateMilestoneMsgView>,
}

impl CreateMsgView {
    /// The validator accepted every account of the whitelist.
    pub open spec fn whitelist_accepted(self) -> bool {
        match self.cw20_whitelist {
            Some(list) => all_accepted(list),
            None => true,
        }
    }

    /// The accounts of the whitelist, in their order, as they were accepted.
    pub open spec fn listed_accounts(self) -> Seq<Seq<char>> {
        match self.cw20_whitelist {
            Some(list) => accepted_texts(list),
            None => Seq::empty(),
        }
    }

    /// What the milestones add up to.
    pub open spec fn total(self) -> BalanceView {
        aggregate(requested_amounts(self.milestones))
    }
}

/// Asks for a new escrow.
#[derive(Debug, PartialEq, Eq)]
pub struct CreateMsg {
    /// The name under which the escrow goes on record.
    pub id: String,
    /// Who may approve milestones and refund.
    pub arbiter: Account,
    /// Who receives what is released. A recipient that the validator
    /// rejected counts as none.
    pub recipient: Option<Account>,
    pub title: String,
    /// What has to be met for the escrow.
    pub description: String,
    /// Token contracts from which amounts are accepted.
    pub cw20_whitelist: Option<Vec<Account>>,
    /// At least one milestone.
    pub milestones: Vec<CreateMilestoneMsg>,
}

impl View for CreateMsg {
    type V = CreateMsgView;

    open spec fn view(&self) -> CreateMsgView {
        CreateMsgView {
            id: self.id@,
            arbiter: account_view(self.arbiter),
            recipient: match self.recipient {
                Some(account) => account_view(account),
                None => None,
            },
            title: self.title@,
            description: self.description@,
            cw20_whitelist: match self.cw20_whitelist {
                Some(list) => Some(accounts_view(list@)),
                None => None,
            },
            milestones: milestone_msgs_view(self.milestones@),
        }
    }
}

impl CreateMsg {
    /// The whitelist of the request, where the validator accepted each of
    /// its accounts.
    pub fn addr_whitelist(&self) -> (r: Result<Vec<String>, ContractError>)
        ensures
            match r {
                Ok(list) => self@.whitelist_accepted() && texts_view(list@)
                    == self@.listed_accounts(),
                Err(e) => !self@.whitelist_accepted() && e == ContractError::InvalidAddress,
            },
    {
        let mut list: Vec<String> = Vec::new();
        match &self.cw20_whitelist {
            Some(accounts) => {
                let ghost all = accounts_view(accounts@);
                let mut k: usize = 0;
                while k < accounts.len()
                    invariant
                        k <= accounts.len(),
                        list.len() == k,
                        all == accounts_view(accounts@),
                        self@.cw20_whitelist == Some(all),
                        forall|i: int| 0 <= i < k ==> (#[trigger] all[i]) is Some,
                        forall|i: int| 0 <= i < k ==> (#[trigger] list[i])@ == all[i]->0,
                    decreases accounts.len() - k,
                {
                    match &accounts[k] {
                        Account::Valid(text) => {
                            list.push(text.clone());
                        },
                        Account::Invalid => {
                            assert(all[k as int] is None);
                            return Err(ContractError::InvalidAddress);
                        },
                    }
                    k += 1;
                }
            },
            None => {
                assert(texts_view(list@) =~= Seq::empty());
            },
        }
        Ok(list)
    }

    /// What the milestones of the request add up to.
    pub fn total_balance_from_milestones(&self) -> (total: GenericBalance)
        requires
            self@.total().fits(),
        ensures
            total@ == self@.total(),
    {
        let copy = clone_milestone_msgs(&self.milestones);
        assert(amounts_of(copy@) =~= requested_amounts(self@.milestones));
        get_total_balance_from(copy)
    }

    /// Whether the milestones of the request add up to nothing.
    pub fn is_total_balance_empty(&self) -> (r: bool)
        requires
            self@.total().fits(),
        ensures
            r == self@.total().is_empty(),
    {
        self.total_balance_from_milestones().is_empty()
    }

    /// Holds the first entry of what was handed over against what the
    /// milestones add up to: the amount of the first coin against that of
    /// the first native entry, or the token amount against that of the
    /// first token entry. An entry that is missing on either side is a
    /// mismatch.
    pub fn is_deposit_equal_to_milestones_balance(&self, deposit: Balance) -> (r: bool)
        requires
            self@.total().fits(),
        ensures
            r == first_entry_matches(self@.total(), deposit@),
    {
        let total = self.total_balance_from_milestones();
        match deposit {
            Balance::Native(balance) => {
                if total.native.len() == 0 || balance.len() == 0 {
                    false
                } else {
                    balance[0].amount == total.native[0].amount
                }
            },
            Balance::Cw20(balance) => {
                if total.cw20.len() == 0 {
                    false
                } else {
                    balance.amount == total.cw20[0].amount
                }
            },
        }
    }

    /// The latest time deadline among the milestones of the request.
    pub fn get_end_time(&self) -> (t: Option<u64>)
        ensures
            t == latest(requested_end_times(self@.milestones)),
    {
        let copy = clone_milestone_msgs(&self.milestones);
        assert(end_times_of(copy@) =~= requested_end_times(self@.milestones));
        get_end_time(copy)
    }

    /// The latest height deadline among the milestones of the request.
    pub fn get_end_height(&self) -> (h: Option<u64>)
        ensures
            h == latest(requested_end_heights(self@.milestones)),
    {
        let copy = clone_milestone_msgs(&self.milestones);
        assert(end_heights_of(copy@) =~= requested_end_heights(self@.milestones));
        get_end_height(copy)
    }
}

/// What is handed over with tokens that a token contract passes on: who
/// sent them, how many, and what they are for.
#[derive(Debug, PartialEq, Eq)]
pub struct Cw20ReceiveMsg {
    /// Who sent the tokens, as the validator judged the account.
    pub sender: Account,
    pub amount: u128,
    pub msg: ReceiveMsg,
}

/// What received tokens can be for.
#[derive(Debug, PartialEq, Eq)]
pub enum ReceiveMsg {
    Create(CreateMsg),
    CreateMilestone(CreateMilestoneMsg),
}

/// The operations on escrows.
#[derive(Debug, PartialEq, Eq)]
pub enum ExecuteMsg {
    /// Creates a new escrow.
    Create(CreateMsg),
    /// Creates one more milestone in an escrow.
    CreateMilestone(CreateMilestoneMsg),
    /// Sets the recipient of an escrow.
    SetRecipient { id: String, recipient: Account },
    /// Releases the amount of a milestone to the recipient. Only the
    /// arbiter can do this.
    ApproveMilestone { id: String, milestone_id: String },
    /// Replaces the deadlines of a milestone.
    ExtendMilestone {
        id: String,
        milestone_id: String,
        end_height: Option<u64>,
        end_time: Option<u64>,
    },
    /// Returns all that is left to the source. The arbiter can do this at
    /// any time, anyone after expiry.
    Refund { id: String },
    /// Tokens that a token contract passes on, with a request.
    Receive(Cw20ReceiveMsg),
}

/// The questions that the registry answers.
#[derive(Debug, PartialEq, Eq)]
pub enum QueryMsg {
    /// All escrows on record.
    List {},
    /// One escrow in full.
    EscrowDetails { id: String },
    /// One milestone of one escrow.
    MilestoneDetails { id: String, milestone_id: String },
    /// The milestones of one escrow.
    ListMilestones { id: String },
}

/// The ids of all escrows on record.
#[derive(Debug, PartialEq, Eq)]
pub struct ListEscrowsResponse {
    pub escrows: Vec<String>,
}

/// The ids of the milestones of an escrow.
#[derive(Debug, PartialEq, Eq)]
pub struct ListMilestonesResponse {
    pub milestones: Vec<String>,
}

/// An escrow in full.
#[derive(Debug, PartialEq, Eq)]
pub struct EscrowDetailsResponse {
    pub id: String,
    pub arbiter: String,
    pub recipient: Option<String>,
    pub source: String,
    pub title: String,
    pub description: String,
    pub end_height: Option<u64>,
    pub end_time: Option<u64>,
    pub native_balance: Vec<Coin>,
    pub cw20_balance: Vec<Cw20Coin>,
    pub cw20_whitelist: Vec<String>,
    pub milestones: Vec<Milestone>,
}

/// Who asks for an operation, and what funds come with the request.
#[derive(Debug, PartialEq, Eq)]
pub struct MessageInfo {
    pub sender: String,
    pub funds: Vec<Coin>,
}

impl Clone for MessageInfo {
    fn clone(&self) -> (info: Self)
        ensures
            info.sender@ == self.sender@,
            info.funds@ == self.funds@,
    {
        let funds = self.funds.clone();
        MessageInfo { sender: self.sender.clone(), funds }
    }
}

/// A pair of texts that records what an operation did.
#[derive(Debug, PartialEq, Eq)]
pub struct Attribute {
    pub key: String,
    pub value: String,
}

/// An attribute, as mathematics sees it.
pub struct AttributeView {
    pub key: Seq<char>,
    pub value: Seq<char>,
}

impl View for Attribute {
    type V = AttributeView;

    open spec fn view(&self) -> AttributeView {
        AttributeView { key: self.key@, value: self.value@ }
    }
}

impl Attribute {
    /// The attribute with the given key and value.
    pub fn new(key: &str, value: &str) -> (a: Self)
        ensures
            a@ == (AttributeView { key: key@, value: value@ }),
    {
        Attribute { key: key.to_owned(), value: value.to_owned() }
    }
}

/// The views of a list of attributes, in the list's order.
pub open spec fn attributes_view(attributes: Seq<Attribute>) -> Seq<AttributeView> {
    Seq::new(attributes.len(), |i: int| attributes[i]@)
}

/// What an operation answers, as mathematics sees it.
pub struct ResponseView {
    pub messages: Seq<TransferView>,
    pub attributes: Seq<AttributeView>,
}

/// What an operation answers: the instructions for the ledger, in the
/// order in which they are to be carried out, and the record of what was
/// done.
#[derive(Debug, PartialEq, Eq)]
pub struct Response {
    pub messages: Vec<TransferMsg>,
    pub attributes: Vec<Attribute>,
}

impl View for Response {
    type V = ResponseView;

    open spec fn view(&self) -> ResponseView {
        ResponseView {
            messages: transfers_view(self.messages@),
            attributes: attributes_view(self.attributes@),
        }
    }
}

/// The holdings that a list of shown token amounts stands for.
pub open spec fn shown_token_amounts(tokens: Seq<Cw20Coin>) -> Seq<AssetAmount> {
    Seq::new(tokens.len(), |i: int| tokens[i]@)
}

/// The details of an escrow, as mathematics sees them.
pub struct EscrowDetailsView {
    pub id: Seq<char>,
    pub escrow: EscrowView,
}

impl View for EscrowDetailsResponse {
    type V = EscrowDetailsView;

    open spec fn view(&self) -> EscrowDetailsView {
        EscrowDetailsView {
            id: self.id@,
            escrow: EscrowView {
                arbiter: self.arbiter@,
                recipient: match self.recipient {
                    Some(r) => Some(r@),
                    None => None,
                },
                source: self.source@,
                title: self.title@,
                description: self.description@,
                end_height: self.end_height,
                end_time: self.end_time,
                balance: BalanceView {
                    native: coin_amounts(self.native_balance@),
                    cw20: shown_token_amounts(self.cw20_balance@),
                },
                cw20_whitelist: texts_view(self.cw20_whitelist@),
                milestones: milestones_view(self.milestones@),
            },
        }
    }
}

/// What a question is answered with.
#[derive(Debug, PartialEq, Eq)]
pub enum QueryResponse {
    List(ListEscrowsResponse),
    EscrowDetails(EscrowDetailsResponse),
    MilestoneDetails(Milestone),
    ListMilestones(ListMilestonesResponse),
}

} // verus!
