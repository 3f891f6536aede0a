//! The operations on escrows: what each one decides, changes and answers.

use crate::asset::{
    coin_amounts, token_amounts, AssetAmount, Balance, BalanceView, Coin, Cw20Coin,
    Cw20CoinVerified,
};
use crate::error::ContractError;
use crate::expiration::{expired, latest, Env};
use crate::milestones::{
    all_completed, completed_at, extended_at, has_milestone, lemma_completion_fits,
    lemma_extension_keeps, lemma_milestone_index, lemma_no_milestone, milestone_ids,
    milestone_index, outstanding,
};
use crate::msg::{
    account_view, deposit_matches, is_whole_balance, requested_amounts, requested_end_heights,
    requested_end_times, Account, Attribute, AttributeView, CreateMilestoneMsg,
    CreateMilestoneMsgView, CreateMsg, CreateMsgView, Cw20ReceiveMsg, DepositCheck,
    EscrowDetailsResponse, EscrowDetailsView, ExecuteMsg, InstantiateMsg, ListEscrowsResponse,
    ListMilestonesResponse, MessageInfo, QueryMsg, QueryResponse, ReceiveMsg, Response,
    ResponseView,
};
use crate::registry::{ascending, ids_view, Registry};
use crate::state::{
    all_escrow_ids, all_escrow_milestone_ids, checked_total_balance_from, escrows_wf,
    get_escrow_by_id, new_milestone, Escrow, EscrowView, Milestone,
};
use crate::text::decimal;
use crate::transfer::{send_tokens, transfers, transfers_view, TransferMsg, TransferView};
use crate::whitelist::{texts_view, whitelist_add, whitelist_add_all, with_account, with_accounts};
use vstd::prelude::*;
use vstd::string::*;

verus! {

/// The escrows on record, as mathematics sees them.
pub type Escrows = Map<Seq<char>, EscrowView>;

/// The attribute with the given key and value.
pub open spec fn attr(key: Seq<char>, value: Seq<char>) -> AttributeView {
    AttributeView { key, value }
}

/// A record of three attributes.
fn three_attributes(k1: &str, v1: &str, k2: &str, v2: &str, k3: &str, v3: &str) -> (list: Vec<
    Attribute,
>)
    ensures
        crate::msg::attributes_view(list@) == seq![
            attr(k1@, v1@),
            attr(k2@, v2@),
            attr(k3@, v3@),
        ],
{
    let mut list: Vec<Attribute> = Vec::new();
    list.push(Attribute::new(k1, v1));
    list.push(Attribute::new(k2, v2));
    list.push(Attribute::new(k3, v3));
    list
}

/// No instruction for the ledger.
fn no_messages() -> (list: Vec<TransferMsg>)
    ensures
        transfers_view(list@) == Seq::<TransferView>::empty(),
{
    let list: Vec<TransferMsg> = Vec::new();
    list
}

/// Sets up a registry without escrows.
pub fn instantiate(_env: Env, _info: MessageInfo, _msg: InstantiateMsg) -> (r: (
    Registry,
    Response,
))
    ensures
        r.0@ == Map::<Seq<char>, EscrowView>::empty(),
        r.1@ == (ResponseView { messages: Seq::empty(), attributes: Seq::empty() }),
{
    let attributes: Vec<Attribute> = Vec::new();
    let res = Response { messages: no_messages(), attributes };
    assert(res@.attributes =~= Seq::empty());
    (Registry::new(), res)
}

/// What any operation comes to.
pub open spec fn execute_outcome(
    store: Escrows,
    env: Env,
    info: MessageInfo,
    msg: ExecuteMsg,
    check: DepositCheck,
) -> Result<(Escrows, ResponseView), ContractError> {
    match msg {
        ExecuteMsg::Create(msg) => create_outcome(
            store,
            msg@,
            info.sender@,
            funds_view(info.funds@),
            check,
        ),
        ExecuteMsg::CreateMilestone(msg) => create_milestone_outcome(
            store,
            msg@,
            info.sender@,
            funds_view(info.funds@),
        ),
        ExecuteMsg::SetRecipient { id, recipient } => set_recipient_outcome(
            store,
            info.sender@,
            id@,
            account_view(recipient),
        ),
        ExecuteMsg::ApproveMilestone { id, milestone_id } => approve_milestone_outcome(
            store,
            env,
            info.sender@,
            id@,
            milestone_id@,
        ),
        ExecuteMsg::ExtendMilestone {
            id,
            milestone_id,
            end_height,
            end_time,
        } => extend_milestone_outcome(
            store,
            env,
            info.sender@,
            id@,
            milestone_id@,
            end_height,
            end_time,
        ),
        ExecuteMsg::Refund { id } => refund_outcome(store, env, info.sender@, id@),
        ExecuteMsg::Receive(wrapper) => receive_outcome(store, info.sender@, wrapper, check),
    }
}

/// The amounts of a request can be added up, and added to what the escrow
/// that it names holds, in 128 bits.
pub open spec fn amounts_admissible(store: Escrows, msg: ExecuteMsg) -> bool {
    match msg {
        ExecuteMsg::Create(msg) => msg@.total().fits(),
        ExecuteMsg::CreateMilestone(msg) => milestone_admissible(store, msg@),
        ExecuteMsg::Receive(wrapper) => receive_admissible(store, wrapper.msg),
        _ => true,
    }
}

/// The amount of a new milestone can be added to what its escrow holds.
pub open spec fn milestone_admissible(store: Escrows, msg: CreateMilestoneMsgView) -> bool {
    store.contains_key(msg.escrow_id) ==> store[msg.escrow_id].balance.merge(msg.amount).fits()
}

/// The amounts of a request that came with tokens can be added up.
pub open spec fn receive_admissible(store: Escrows, msg: ReceiveMsg) -> bool {
    match msg {
        ReceiveMsg::Create(msg) => msg@.total().fits(),
        ReceiveMsg::CreateMilestone(msg) => milestone_admissible(store, msg@),
    }
}

/// Carries out an operation on the escrows.
pub fn execute(
    store: &mut Registry,
    env: Env,
    info: MessageInfo,
    msg: ExecuteMsg,
    check: DepositCheck,
) -> (r: Result<Response, ContractError>)
    requires
        escrows_wf(old(store)@),
        amounts_admissible(old(store)@, msg),
    ensures
        escrows_wf(final(store)@),
        match r {
            Ok(resp) => execute_outcome(old(store)@, env, info, msg, check) == Ok::<
                (Escrows, ResponseView),
                ContractError,
            >((final(store)@, resp@)),
            Err(e) => execute_outcome(old(store)@, env, info, msg, check) == Err::<
                (Escrows, ResponseView),
                ContractError,
            >(e) && final(store)@ == old(store)@,
        },
{
    match msg {
        ExecuteMsg::Create(msg) => {
            let funds = info.funds.clone();
            execute_create(store, msg, info, Balance::Native(funds), check)
        },
        ExecuteMsg::CreateMilestone(msg) => {
            let funds = info.funds.clone();
            execute_create_milestone(store, msg, info, Balance::Native(funds))
        },
        ExecuteMsg::SetRecipient { id, recipient } => {
            execute_set_recipient(store, env, info, id, recipient)
        },
        ExecuteMsg::ApproveMilestone { id, milestone_id } => {
            execute_approve_milestone(store, env, info, id, milestone_id)
        },
        ExecuteMsg::ExtendMilestone { id, milestone_id, end_height, end_time } => {
            execute_extend_milestone(store, env, info, id, milestone_id, end_height, end_time)
        },
        ExecuteMsg::Refund { id } => execute_refund(store, env, info, id),
        ExecuteMsg::Receive(msg) => execute_receive(store, info, msg, check),
    }
}

/// Whether the milestones of a request can be added up.
fn total_fits(msg: &CreateMsg) -> (r: bool)
    ensures
        r == msg@.total().fits(),
{
    assert(crate::state::amounts_of(msg.milestones@) =~= requested_amounts(msg@.milestones));
    checked_total_balance_from(&msg.milestones).is_some()
}

/// Whether the amount of a new milestone can be added to what its escrow
/// holds.
fn milestone_fits(store: &Registry, msg: &CreateMilestoneMsg) -> (r: bool)
    ensures
        r == milestone_admissible(store@, msg@),
{
    match store.load(msg.escrow_id.as_str()) {
        Ok(escrow) => {
            let mut balance = escrow.balance;
            balance.checked_merge_in(&msg.amount)
        },
        Err(_) => true,
    }
}

/// Whether the amounts of a request can be added up, and added to what the
/// escrow that it names holds, in 128 bits.
pub fn is_admissible(store: &Registry, msg: &ExecuteMsg) -> (r: bool)
    ensures
        r == amounts_admissible(store@, *msg),
{
    match msg {
        ExecuteMsg::Create(msg) => total_fits(msg),
        ExecuteMsg::CreateMilestone(msg) => milestone_fits(store, msg),
        ExecuteMsg::Receive(wrapper) => match &wrapper.msg {
            ReceiveMsg::Create(msg) => total_fits(msg),
            ReceiveMsg::CreateMilestone(msg) => milestone_fits(store, msg),
        },
        _ => true,
    }
}

/// Carries out an operation on the escrows, where it can be carried out:
/// where every escrow on record is well formed and the amounts of the
/// request can be added up. Otherwise nothing is done, and nothing is
/// answered.
pub fn try_execute(
    store: &mut Registry,
    env: Env,
    info: MessageInfo,
    msg: ExecuteMsg,
    check: DepositCheck,
) -> (r: Option<Result<Response, ContractError>>)
    ensures
        r is Some <==> escrows_wf(old(store)@) && amounts_admissible(old(store)@, msg),
        match r {
            None => final(store)@ == old(store)@,
            Some(Ok(resp)) => escrows_wf(final(store)@) && execute_outcome(
                old(store)@,
                env,
                info,
                msg,
                check,
            ) == Ok::<(Escrows, ResponseView), ContractError>((final(store)@, resp@)),
            Some(Err(e)) => execute_outcome(old(store)@, env, info, msg, check) == Err::<
                (Escrows, ResponseView),
                ContractError,
            >(e) && final(store)@ == old(store)@,
        },
{
    if !store.all_well_formed() || !is_admissible(store, &msg) {
        None
    } else {
        Some(execute(store, env, info, msg, check))
    }
}

/// The funds of a request, as what was handed over.
pub open spec fn funds_view(funds: Seq<Coin>) -> BalanceView {
    BalanceView { native: coin_amounts(funds), cw20: Seq::empty() }
}

/// The tokens that a token contract passed on, as what was handed over;
/// nothing where the validator rejected their sender.
pub open spec fn received_view(wrapper: Cw20ReceiveMsg) -> BalanceView {
    match wrapper.sender {
        Account::Valid(sender) => BalanceView {
            native: Seq::empty(),
            cw20: seq![AssetAmount { key: sender@, amount: wrapper.amount as nat }],
        },
        Account::Invalid => BalanceView::empty(),
    }
}

/// What a request that came with tokens comes to: refused where the
/// validator rejected the sender of the tokens, otherwise what the request
/// that it carries comes to with the tokens as what was handed over.
pub open spec fn receive_outcome(
    store: Escrows,
    sender: Seq<char>,
    wrapper: Cw20ReceiveMsg,
    check: DepositCheck,
) -> Result<(Escrows, ResponseView), ContractError> {
    if wrapper.sender is Invalid {
        Err(ContractError::InvalidAddress)
    } else {
        match wrapper.msg {
            ReceiveMsg::Create(msg) => create_outcome(
                store,
                msg@,
                sender,
                received_view(wrapper),
                check,
            ),
            ReceiveMsg::CreateMilestone(msg) => create_milestone_outcome(
                store,
                msg@,
                sender,
                received_view(wrapper),
            ),
        }
    }
}

/// Carries out the request that came with tokens, with the tokens as what
/// was handed over.
pub fn execute_receive(
    store: &mut Registry,
    info: MessageInfo,
    wrapper: Cw20ReceiveMsg,
    check: DepositCheck,
) -> (r: Result<Response, ContractError>)
    requires
        escrows_wf(old(store)@),
        receive_admissible(old(store)@, wrapper.msg),
    ensures
        escrows_wf(final(store)@),
        match r {
            Ok(resp) => receive_outcome(old(store)@, info.sender@, wrapper, check) == Ok::<
                (Escrows, ResponseView),
                ContractError,
            >((final(store)@, resp@)),
            Err(e) => receive_outcome(old(store)@, info.sender@, wrapper, check) == Err::<
                (Escrows, ResponseView),
                ContractError,
            >(e) && final(store)@ == old(store)@,
        },
{
    let validated_sender = match wrapper.sender {
        Account::Valid(text) => text,
        Account::Invalid => {
            return Err(ContractError::InvalidAddress);
        },
    };
    let balance = Balance::Cw20(
        Cw20CoinVerified { address: validated_sender, amount: wrapper.amount },
    );
    match wrapper.msg {
        ReceiveMsg::Create(msg) => execute_create(store, msg, info, balance, check),
        ReceiveMsg::CreateMilestone(msg) => execute_create_milestone(store, msg, info, balance),
    }
}

/// The whitelist with which an escrow starts: the accounts that the
/// request lists, each once, and the contract of the tokens that came
/// with the request.
pub open spec fn initial_whitelist(msg: CreateMsgView, deposit: BalanceView) -> Seq<Seq<char>> {
    let listed = with_accounts(Seq::empty(), msg.listed_accounts());
    if deposit.cw20.len() > 0 {
        with_account(listed, deposit.cw20[0].key)
    } else {
        listed
    }
}

/// An escrow with the milestones that a request describes, appended in
/// the request's order.
pub open spec fn with_milestones(e: EscrowView, msgs: Seq<CreateMilestoneMsgView>) -> EscrowView
    decreases msgs.len(),
{
    if msgs.len() == 0 {
        e
    } else {
        with_milestones(e, msgs.drop_last()).with_milestone(msgs.last())
    }
}

/// The escrow that a request creates for the sender.
pub open spec fn created_escrow(msg: CreateMsgView, sender: Seq<char>, deposit: BalanceView)
    -> EscrowView {
    with_milestones(
        EscrowView {
            arbiter: msg.arbiter->0,
            recipient: msg.recipient,
            source: sender,
            title: msg.title,
            description: msg.description,
            end_height: latest(requested_end_heights(msg.milestones)),
            end_time: latest(requested_end_times(msg.milestones)),
            balance: msg.total(),
            cw20_whitelist: initial_whitelist(msg, deposit),
            milestones: Seq::empty(),
        },
        msg.milestones,
    )
}

/// What creating an escrow comes to: the registry afterwards and the
/// answer, or the reason for which the request is refused. The checks are
/// made in this order.
pub open spec fn create_outcome(
    store: Escrows,
    msg: CreateMsgView,
    sender: Seq<char>,
    deposit: BalanceView,
    check: DepositCheck,
) -> Result<(Escrows, ResponseView), ContractError> {
    if msg.milestones.len() == 0 {
        Err(ContractError::EmptyMilestones)
    } else if msg.total().is_empty() {
        Err(ContractError::EmptyBalance)
    } else if !deposit_matches(check, msg.total(), deposit) {
        Err(ContractError::FundsMismatch)
    } else if msg.arbiter is None || !msg.whitelist_accepted() {
        Err(ContractError::InvalidAddress)
    } else if store.contains_key(msg.id) {
        Err(ContractError::AlreadyInUse)
    } else {
        Ok(
            (
                store.insert(msg.id, created_escrow(msg, sender, deposit)),
                ResponseView {
                    messages: Seq::empty(),
                    attributes: seq![attr("action"@, "create"@), attr("id"@, msg.id)],
                },
            ),
        )
    }
}

/// Holds what was handed over against what the milestones add up to.
fn deposit_passes(check: DepositCheck, msg: &CreateMsg, deposit: &Balance) -> (r: bool)
    requires
        msg@.total().fits(),
    ensures
        r == deposit_matches(check, msg@.total(), deposit@),
{
    match check {
        DepositCheck::FirstEntry => {
            let copy = match deposit {
                Balance::Native(coins) => {
                    let coins_copy = coins.clone();
                    Balance::Native(coins_copy)
                },
                Balance::Cw20(token) => Balance::Cw20(token.clone()),
            };
            msg.is_deposit_equal_to_milestones_balance(copy)
        },
        DepositCheck::WholeBalance => {
            let total = msg.total_balance_from_milestones();
            is_whole_balance(&total, deposit)
        },
    }
}

/// Creates an escrow for the sender, with the milestones of the request,
/// and puts it on record under the id of the request.
pub fn execute_create(
    store: &mut Registry,
    msg: CreateMsg,
    info: MessageInfo,
    balance: Balance,
    check: DepositCheck,
) -> (r: Result<Response, ContractError>)
    requires
        msg@.total().fits(),
    ensures
        escrows_wf(old(store)@) ==> escrows_wf(final(store)@),
        match r {
            Ok(resp) => create_outcome(old(store)@, msg@, info.sender@, balance@, check) == Ok::<
                (Escrows, ResponseView),
                ContractError,
            >((final(store)@, resp@)),
            Err(e) => create_outcome(old(store)@, msg@, info.sender@, balance@, check) == Err::<
                (Escrows, ResponseView),
                ContractError,
            >(e) && final(store)@ == old(store)@,
        },
{
    if msg.milestones.is_empty() {
        return Err(ContractError::EmptyMilestones);
    }
    proof {
        crate::laws::lemma_created_wf(msg@, info.sender@, balance@);
    }
    if msg.is_total_balance_empty() {
        return Err(ContractError::EmptyBalance);
    }
    if !deposit_passes(check, &msg, &balance) {
        return Err(ContractError::FundsMismatch);
    }
    let arbiter: String = match &msg.arbiter {
        Account::Valid(text) => text.clone(),
        Account::Invalid => {
            return Err(ContractError::InvalidAddress);
        },
    };
    let recipient: Option<String> = match &msg.recipient {
        Some(Account::Valid(text)) => Some(text.clone()),
        _ => None,
    };
    let listed = match msg.addr_whitelist() {
        Ok(list) => list,
        Err(e) => {
            return Err(e);
        },
    };
    let mut cw20_whitelist: Vec<String> = Vec::new();
    assert(texts_view(cw20_whitelist@) =~= Seq::empty());
    whitelist_add_all(&mut cw20_whitelist, &listed);
    match &balance {
        Balance::Native(_) => {},
        Balance::Cw20(token) => {
            whitelist_add(&mut cw20_whitelist, &token.address);
        },
    }
    let end_time = msg.get_end_time();
    let end_height = msg.get_end_height();
    let total = msg.total_balance_from_milestones();

    let mut escrow = Escrow {
        arbiter,
        recipient,
        source: info.sender.clone(),
        title: msg.title.clone(),
        description: msg.description.clone(),
        end_height,
        end_time,
        balance: total,
        cw20_whitelist,
        milestones: Vec::new(),
    };
    let ghost base = escrow@;
    let ghost requested = msg@.milestones;
    assert(base.milestones =~= Seq::empty());
    let mut k: usize = 0;
    while k < msg.milestones.len()
        invariant
            k <= msg.milestones.len(),
            requested == msg@.milestones,
            escrow@ == with_milestones(base, requested.take(k as int)),
        decreases msg.milestones.len() - k,
    {
        assert(requested.take(k + 1).drop_last() =~= requested.take(k as int));
        escrow.create_milestone(msg.milestones[k].clone());
        k += 1;
    }
    assert(requested.take(k as int) =~= requested);

    match store.insert_if_absent(msg.id.as_str(), escrow) {
        Ok(()) => {},
        Err(e) => {
            return Err(e);
        },
    }
    let mut attributes: Vec<Attribute> = Vec::new();
    attributes.push(Attribute::new("action", "create"));
    attributes.push(Attribute::new("id", msg.id.as_str()));
    let res = Response { messages: Vec::new(), attributes };
    assert(res@.messages =~= Seq::empty());
    assert(res@.attributes =~= seq![attr("action"@, "create"@), attr("id"@, msg.id@)]);
    Ok(res)
}

/// An escrow after a milestone was added to it: the contract of the tokens
/// that came with the request is on the whitelist, the milestone stands
/// at the end, and the balance and the deadlines are set anew.
pub open spec fn extended_escrow(e: EscrowView, msg: CreateMilestoneMsgView, deposit: BalanceView)
    -> EscrowView {
    (EscrowView {
        cw20_whitelist: if deposit.cw20.len() > 0 {
            with_account(e.cw20_whitelist, deposit.cw20[0].key)
        } else {
            e.cw20_whitelist
        },
        ..e
    }).with_milestone(msg).recalculated()
}

/// What adding a milestone comes to. The checks are made in this order.
pub open spec fn create_milestone_outcome(
    store: Escrows,
    msg: CreateMilestoneMsgView,
    sender: Seq<char>,
    deposit: BalanceView,
) -> Result<(Escrows, ResponseView), ContractError> {
    if !store.contains_key(msg.escrow_id) {
        Err(ContractError::NotFound)
    } else if sender != store[msg.escrow_id].arbiter {
        Err(ContractError::Unauthorized)
    } else if msg.amount.is_empty() {
        Err(ContractError::EmptyBalance)
    } else {
        let e = store[msg.escrow_id];
        Ok(
            (
                store.insert(msg.escrow_id, extended_escrow(e, msg, deposit)),
                ResponseView {
                    messages: Seq::empty(),
                    attributes: seq![
                        attr("action"@, "create_milestone"@),
                        attr("escrow_id"@, msg.escrow_id),
                        attr("milestone_id"@, decimal(e.milestones.len() + 1)),
                    ],
                },
            ),
        )
    }
}

/// Adds a milestone to an escrow. Only the arbiter can do this.
pub fn execute_create_milestone(
    store: &mut Registry,
    msg: CreateMilestoneMsg,
    info: MessageInfo,
    amount: Balance,
) -> (r: Result<Response, ContractError>)
    requires
        escrows_wf(old(store)@),
        old(store)@.contains_key(msg@.escrow_id) ==> old(store)@[msg@.escrow_id].balance.merge(
            msg@.amount,
        ).fits(),
    ensures
        escrows_wf(final(store)@),
        match r {
            Ok(resp) => create_milestone_outcome(old(store)@, msg@, info.sender@, amount@)
                == Ok::<(Escrows, ResponseView), ContractError>((final(store)@, resp@)),
            Err(e) => create_milestone_outcome(old(store)@, msg@, info.sender@, amount@) == Err::<
                (Escrows, ResponseView),
                ContractError,
            >(e) && final(store)@ == old(store)@,
        },
{
    let mut escrow = match get_escrow_by_id(store, &msg.escrow_id) {
        Ok(escrow) => escrow,
        Err(e) => {
            return Err(e);
        },
    };
    if info.sender != escrow.arbiter {
        return Err(ContractError::Unauthorized);
    }
    if msg.amount.native.is_empty() && msg.amount.cw20.is_empty() {
        return Err(ContractError::EmptyBalance);
    }
    let ghost stored = escrow@;
    match &amount {
        Balance::Native(_) => {},
        Balance::Cw20(token) => {
            whitelist_add(&mut escrow.cw20_whitelist, &token.address);
        },
    }
    proof {
        crate::laws::lemma_extended_escrow_wf(stored, msg@, amount@);
        let added = new_milestone(stored.milestones.len(), msg@);
        assert(stored.milestones.push(added).drop_last() =~= stored.milestones);
        assert(outstanding(stored.milestones).push(msg@.amount).drop_last() =~= outstanding(
            stored.milestones,
        ));
    }
    escrow.create_milestone(msg.clone());
    let next_id: String = crate::text::decimal_string(escrow.milestones.len() as u128);
    escrow.update_calculated_properties();
    store.save(msg.escrow_id.as_str(), escrow);
    Ok(
        Response {
            messages: no_messages(),
            attributes: three_attributes(
                "action",
                "create_milestone",
                "escrow_id",
                msg.escrow_id.as_str(),
                "milestone_id",
                next_id.as_str(),
            ),
        },
    )
}

/// What setting the recipient comes to. The checks are made in this order.
pub open spec fn set_recipient_outcome(
    store: Escrows,
    sender: Seq<char>,
    id: Seq<char>,
    recipient: Option<Seq<char>>,
) -> Result<(Escrows, ResponseView), ContractError> {
    if !store.contains_key(id) {
        Err(ContractError::NotFound)
    } else if sender != store[id].arbiter {
        Err(ContractError::Unauthorized)
    } else if recipient is None {
        Err(ContractError::InvalidAddress)
    } else {
        Ok(
            (
                store.insert(id, EscrowView { recipient, ..store[id] }),
                ResponseView {
                    messages: Seq::empty(),
                    attributes: seq![
                        attr("action"@, "set_recipient"@),
                        attr("id"@, id),
                        attr("recipient"@, recipient->0),
                    ],
                },
            ),
        )
    }
}

/// Sets the recipient of an escrow. Only the arbiter can do this.
pub fn execute_set_recipient(
    store: &mut Registry,
    _env: Env,
    info: MessageInfo,
    id: String,
    recipient: Account,
) -> (r: Result<Response, ContractError>)
    ensures
        escrows_wf(old(store)@) ==> escrows_wf(final(store)@),
        match r {
            Ok(resp) => set_recipient_outcome(
                old(store)@,
                info.sender@,
                id@,
                account_view(recipient),
            ) == Ok::<(Escrows, ResponseView), ContractError>((final(store)@, resp@)),
            Err(e) => set_recipient_outcome(
                old(store)@,
                info.sender@,
                id@,
                account_view(recipient),
            ) == Err::<(Escrows, ResponseView), ContractError>(e) && final(store)@ == old(
                store,
            )@,
        },
{
    let mut escrow = match get_escrow_by_id(store, &id) {
        Ok(escrow) => escrow,
        Err(e) => {
            return Err(e);
        },
    };
    if info.sender != escrow.arbiter {
        return Err(ContractError::Unauthorized);
    }
    let validated_recipient = match validate_recipient(&recipient) {
        Ok(text) => text,
        Err(e) => {
            return Err(e);
        },
    };
    escrow.recipient = Some(validated_recipient.clone());
    store.save(id.as_str(), escrow);
    Ok(
        Response {
            messages: no_messages(),
            attributes: three_attributes(
                "action",
                "set_recipient",
                "id",
                id.as_str(),
                "recipient",
                validated_recipient.as_str(),
            ),
        },
    )
}

/// The recipient's text, where the validator accepted the account.
fn validate_recipient(recipient: &Account) -> (r: Result<String, ContractError>)
    ensures
        match r {
            Ok(text) => account_view(*recipient) == Some(text@),
            Err(e) => account_view(*recipient) is None && e == ContractError::InvalidAddress,
        },
{
    match recipient {
        Account::Valid(text) => Ok(text.clone()),
        Account::Invalid => Err(ContractError::InvalidAddress),
    }
}

/// What approving a milestone comes to. The checks are made in this order.
/// Where the milestone was the last one open, the escrow leaves the
/// registry and its whole balance is released; otherwise the amount of the
/// milestone is released and the escrow stays, with the milestone
/// completed and its balance and deadlines set anew.
pub open spec fn approve_milestone_outcome(
    store: Escrows,
    env: Env,
    sender: Seq<char>,
    id: Seq<char>,
    milestone_id: Seq<char>,
) -> Result<(Escrows, ResponseView), ContractError> {
    if !store.contains_key(id) {
        Err(ContractError::NotFound)
    } else if sender != store[id].arbiter {
        Err(ContractError::Unauthorized)
    } else if expired(store[id].end_height, store[id].end_time, env) {
        Err(ContractError::Expired)
    } else if !has_milestone(store[id].milestones, milestone_id) {
        Err(ContractError::MilestoneNotFound)
    } else {
        let e = store[id];
        let i = milestone_index(e.milestones, milestone_id);
        let m = e.milestones[i];
        if m.is_completed {
            Err(ContractError::MilestoneCompleted)
        } else if expired(m.end_height, m.end_time, env) {
            Err(ContractError::MilestoneExpired)
        } else if e.recipient is None {
            Err(ContractError::RecipientNotSet)
        } else {
            match transfers(e.recipient->0, m.amount) {
                None => Err(ContractError::Std),
                Some(messages) => if all_completed(completed_at(e.milestones, i)) {
                    match approve_outcome(store, env, sender, id) {
                        Err(err) => Err(err),
                        Ok((rest, all)) => Ok(
                            (
                                rest,
                                ResponseView {
                                    messages: all,
                                    attributes: seq![
                                        attr("action"@, "approve_milestone"@),
                                        attr("id"@, id),
                                        attr("is_escrow_complete"@, "true"@),
                                    ],
                                },
                            ),
                        ),
                    }
                } else {
                    Ok(
                        (
                            store.insert(
                                id,
                                (EscrowView {
                                    milestones: completed_at(e.milestones, i),
                                    ..e
                                }).recalculated(),
                            ),
                            ResponseView {
                                messages,
                                attributes: seq![
                                    attr("action"@, "approve_milestone"@),
                                    attr("id"@, id),
                                    attr("milestone_id"@, milestone_id),
                                ],
                            },
                        ),
                    )
                },
            }
        }
    }
}

/// Approves a milestone and releases its amount to the recipient. Only
/// the arbiter can do this, before the escrow and the milestone expire,
/// and once for each milestone. With the last open milestone the whole
/// escrow is released and leaves the registry.
pub fn execute_approve_milestone(
    store: &mut Registry,
    env: Env,
    info: MessageInfo,
    id: String,
    milestone_id: String,
) -> (r: Result<Response, ContractError>)
    requires
        escrows_wf(old(store)@),
    ensures
        escrows_wf(final(store)@),
        match r {
            Ok(resp) => approve_milestone_outcome(
                old(store)@,
                env,
                info.sender@,
                id@,
                milestone_id@,
            ) == Ok::<(Escrows, ResponseView), ContractError>((final(store)@, resp@)),
            Err(e) => approve_milestone_outcome(
                old(store)@,
                env,
                info.sender@,
                id@,
                milestone_id@,
            ) == Err::<(Escrows, ResponseView), ContractError>(e) && final(store)@ == old(
                store,
            )@,
        },
{
    let mut escrow = match get_escrow_by_id(store, &id) {
        Ok(escrow) => escrow,
        Err(e) => {
            return Err(e);
        },
    };
    if info.sender != escrow.arbiter {
        return Err(ContractError::Unauthorized);
    }
    if escrow.is_expired(&env) {
        return Err(ContractError::Expired);
    }
    let ghost stored = escrow@;
    let i = match escrow.milestone_position(milestone_id.as_str()) {
        Some(i) => i,
        None => {
            proof {
                lemma_no_milestone(stored.milestones, milestone_id@);
            }
            return Err(ContractError::MilestoneNotFound);
        },
    };
    proof {
        lemma_milestone_index(stored.milestones, milestone_id@, i as int);
    }
    if escrow.milestones[i].is_completed {
        return Err(ContractError::MilestoneCompleted);
    }
    if escrow.milestones[i].is_expired(&env) {
        return Err(ContractError::MilestoneExpired);
    }
    let recipient = match &escrow.recipient {
        Some(recipient) => recipient.clone(),
        None => {
            return Err(ContractError::RecipientNotSet);
        },
    };
    let messages = match send_tokens(&recipient, &escrow.milestones[i].amount) {
        Ok(messages) => messages,
        Err(e) => {
            return Err(e);
        },
    };
    escrow.milestones[i].is_completed = true;
    assert(escrow@.milestones =~= completed_at(stored.milestones, i as int));
    if escrow.is_complete() {
        let approve_messages = match execute_approve(store, env, info, id.clone()) {
            Ok(messages) => messages,
            Err(e) => {
                return Err(e);
            },
        };
        Ok(
            Response {
                messages: approve_messages,
                attributes: three_attributes(
                    "action",
                    "approve_milestone",
                    "id",
                    id.as_str(),
                    "is_escrow_complete",
                    "true",
                ),
            },
        )
    } else {
        proof {
            escrow.balance.lemma_fits();
            lemma_completion_fits(stored.milestones, i as int);
            crate::laws::lemma_completed_wf(stored, i as int);
        }
        escrow.update_calculated_properties();
        store.save(id.as_str(), escrow);
        Ok(
            Response {
                messages,
                attributes: three_attributes(
                    "action",
                    "approve_milestone",
                    "id",
                    id.as_str(),
                    "milestone_id",
                    milestone_id.as_str(),
                ),
            },
        )
    }
}

/// What replacing the deadlines of a milestone comes to. The checks are
/// made in this order. A deadline may be moved in either direction.
pub open spec fn extend_milestone_outcome(
    store: Escrows,
    env: Env,
    sender: Seq<char>,
    id: Seq<char>,
    milestone_id: Seq<char>,
    end_height: Option<u64>,
    end_time: Option<u64>,
) -> Result<(Escrows, ResponseView), ContractError> {
    if !store.contains_key(id) {
        Err(ContractError::NotFound)
    } else if sender != store[id].arbiter {
        Err(ContractError::Unauthorized)
    } else if !has_milestone(store[id].milestones, milestone_id) {
        Err(ContractError::MilestoneNotFound)
    } else {
        let e = store[id];
        let i = milestone_index(e.milestones, milestone_id);
        let m = e.milestones[i];
        if expired(m.end_height, m.end_time, env) {
            Err(ContractError::MilestoneExpired)
        } else {
            Ok(
                (
                    store.insert(
                        id,
                        (EscrowView {
                            milestones: extended_at(e.milestones, i, end_height, end_time),
                            ..e
                        }).recalculated(),
                    ),
                    ResponseView {
                        messages: Seq::empty(),
                        attributes: seq![
                            attr("action"@, "extend_milestone"@),
                            attr("id"@, id),
                            attr("milestone_id"@, milestone_id),
                        ],
                    },
                ),
            )
        }
    }
}

/// Replaces the deadlines of a milestone, each by the argument that is
/// set. Only the arbiter can do this, and only before the milestone
/// expires.
pub fn execute_extend_milestone(
    store: &mut Registry,
    env: Env,
    info: MessageInfo,
    id: String,
    milestone_id: String,
    end_height: Option<u64>,
    end_time: Option<u64>,
) -> (r: Result<Response, ContractError>)
    requires
        escrows_wf(old(store)@),
    ensures
        escrows_wf(final(store)@),
        match r {
            Ok(resp) => extend_milestone_outcome(
                old(store)@,
                env,
                info.sender@,
                id@,
                milestone_id@,
                end_height,
                end_time,
            ) == Ok::<(Escrows, ResponseView), ContractError>((final(store)@, resp@)),
            Err(e) => extend_milestone_outcome(
                old(store)@,
                env,
                info.sender@,
                id@,
                milestone_id@,
                end_height,
                end_time,
            ) == Err::<(Escrows, ResponseView), ContractError>(e) && final(store)@ == old(
                store,
            )@,
        },
{
    let mut escrow = match get_escrow_by_id(store, &id) {
        Ok(escrow) => escrow,
        Err(e) => {
            return Err(e);
        },
    };
    if info.sender != escrow.arbiter {
        return Err(ContractError::Unauthorized);
    }
    let ghost stored = escrow@;
    let i = match escrow.milestone_position(milestone_id.as_str()) {
        Some(i) => i,
        None => {
            proof {
                lemma_no_milestone(stored.milestones, milestone_id@);
            }
            return Err(ContractError::MilestoneNotFound);
        },
    };
    proof {
        lemma_milestone_index(stored.milestones, milestone_id@, i as int);
    }
    if escrow.milestones[i].is_expired(&env) {
        return Err(ContractError::MilestoneExpired);
    }
    if let Some(end_height) = end_height {
        escrow.milestones[i].end_height = Some(end_height);
    }
    if let Some(end_time) = end_time {
        escrow.milestones[i].end_time = Some(end_time);
    }
    assert(escrow@.milestones =~= extended_at(stored.milestones, i as int, end_height, end_time));
    proof {
        escrow.balance.lemma_fits();
        lemma_extension_keeps(stored.milestones, i as int, end_height, end_time);
        crate::laws::lemma_extended_at_wf(stored, i as int, end_height, end_time);
    }
    escrow.update_calculated_properties();
    store.save(id.as_str(), escrow);
    Ok(
        Response {
            messages: no_messages(),
            attributes: three_attributes(
                "action",
                "extend_milestone",
                "id",
                id.as_str(),
                "milestone_id",
                milestone_id.as_str(),
            ),
        },
    )
}

/// What a refund comes to: the escrow leaves the registry and its whole
/// balance goes back to the source. The arbiter may ask for it at any
/// time, anyone once the escrow is expired.
pub open spec fn refund_outcome(store: Escrows, env: Env, sender: Seq<char>, id: Seq<char>)
    -> Result<(Escrows, ResponseView), ContractError> {
    if !store.contains_key(id) {
        Err(ContractError::NotFound)
    } else if !expired(store[id].end_height, store[id].end_time, env) && sender
        != store[id].arbiter {
        Err(ContractError::Unauthorized)
    } else {
        match transfers(store[id].source, store[id].balance) {
            None => Err(ContractError::Std),
            Some(messages) => Ok(
                (
                    store.remove(id),
                    ResponseView {
                        messages,
                        attributes: seq![
                            attr("action"@, "refund"@),
                            attr("id"@, id),
                            attr("to"@, store[id].source),
                        ],
                    },
                ),
            ),
        }
    }
}

/// Gives all that an escrow still holds back to its source and takes the
/// escrow off the record. The arbiter can do this at any time, anyone
/// once the escrow is expired.
pub fn execute_refund(store: &mut Registry, env: Env, info: MessageInfo, id: String) -> (r: Result<
    Response,
    ContractError,
>)
    requires
        escrows_wf(old(store)@),
    ensures
        escrows_wf(final(store)@),
        match r {
            Ok(resp) => refund_outcome(old(store)@, env, info.sender@, id@) == Ok::<
                (Escrows, ResponseView),
                ContractError,
            >((final(store)@, resp@)),
            Err(e) => refund_outcome(old(store)@, env, info.sender@, id@) == Err::<
                (Escrows, ResponseView),
                ContractError,
            >(e) && final(store)@ == old(store)@,
        },
{
    let escrow = match get_escrow_by_id(store, &id) {
        Ok(escrow) => escrow,
        Err(e) => {
            return Err(e);
        },
    };
    if !escrow.is_expired(&env) && info.sender != escrow.arbiter {
        Err(ContractError::Unauthorized)
    } else {
        proof {
            escrow.balance.lemma_fits();
        }
        let messages = match send_tokens(&escrow.source, &escrow.get_remaining_balance()) {
            Ok(messages) => messages,
            Err(e) => {
                return Err(e);
            },
        };
        store.delete(id.as_str());
        Ok(
            Response {
                messages,
                attributes: three_attributes(
                    "action",
                    "refund",
                    "id",
                    id.as_str(),
                    "to",
                    escrow.source.as_str(),
                ),
            },
        )
    }
}

/// What releasing all of an escrow comes to: the registry without the
/// escrow, and the instructions that move the whole balance to the
/// recipient. The checks are made in this order.
pub open spec fn approve_outcome(store: Escrows, env: Env, sender: Seq<char>, id: Seq<char>)
    -> Result<(Escrows, Seq<TransferView>), ContractError> {
    if !store.contains_key(id) {
        Err(ContractError::NotFound)
    } else if sender != store[id].arbiter {
        Err(ContractError::Unauthorized)
    } else if expired(store[id].end_height, store[id].end_time, env) {
        Err(ContractError::Expired)
    } else if store[id].recipient is None {
        Err(ContractError::RecipientNotSet)
    } else {
        match transfers(store[id].recipient->0, store[id].balance) {
            None => Err(ContractError::Std),
            Some(messages) => Ok((store.remove(id), messages)),
        }
    }
}

/// Releases all of an escrow to its recipient and takes the escrow off
/// the record. Only the arbiter can do this, and only before expiry.
pub fn execute_approve(store: &mut Registry, env: Env, info: MessageInfo, id: String) -> (r:
    Result<Vec<TransferMsg>, ContractError>)
    requires
        escrows_wf(old(store)@),
    ensures
        escrows_wf(final(store)@),
        match r {
            Ok(messages) => approve_outcome(old(store)@, env, info.sender@, id@) == Ok::<
                (Escrows, Seq<TransferView>),
                ContractError,
            >((final(store)@, transfers_view(messages@))),
            Err(e) => approve_outcome(old(store)@, env, info.sender@, id@) == Err::<
                (Escrows, Seq<TransferView>),
                ContractError,
            >(e) && final(store)@ == old(store)@,
        },
{
    let escrow = match get_escrow_by_id(store, &id) {
        Ok(escrow) => escrow,
        Err(e) => {
            return Err(e);
        },
    };
    if info.sender != escrow.arbiter {
        return Err(ContractError::Unauthorized);
    }
    if escrow.is_expired(&env) {
        return Err(ContractError::Expired);
    }
    let recipient = match &escrow.recipient {
        Some(recipient) => recipient.clone(),
        None => {
            return Err(ContractError::RecipientNotSet);
        },
    };
    proof {
        escrow.balance.lemma_fits();
    }
    let messages = match send_tokens(&recipient, &escrow.get_remaining_balance()) {
        Ok(messages) => messages,
        Err(e) => {
            return Err(e);
        },
    };
    store.delete(id.as_str());
    Ok(messages)
}

/// What asking for the details of an escrow comes to: all that is on
/// record of it, or nothing where no escrow has the id.
pub open spec fn escrow_details_outcome(store: Escrows, id: Seq<char>) -> Result<
    EscrowDetailsView,
    ContractError,
> {
    if store.contains_key(id) {
        Ok(EscrowDetailsView { id, escrow: store[id] })
    } else {
        Err(ContractError::NotFound)
    }
}

/// Answers a question about the escrows on record.
pub fn query(store: &Registry, _env: Env, msg: QueryMsg) -> (r: Result<
    QueryResponse,
    ContractError,
>)
    ensures
        match msg {
            QueryMsg::List {  } => r matches Ok(QueryResponse::List(list)) && ascending(
                ids_view(list.escrows@),
            ) && forall|k: Seq<char>|
                store@.contains_key(k) <==> ids_view(list.escrows@).contains(k),
            QueryMsg::EscrowDetails { id } => match r {
                Ok(QueryResponse::EscrowDetails(details)) => escrow_details_outcome(store@, id@)
                    == Ok::<EscrowDetailsView, ContractError>(details@),
                Ok(_) => false,
                Err(e) => escrow_details_outcome(store@, id@) == Err::<
                    EscrowDetailsView,
                    ContractError,
                >(e),
            },
            QueryMsg::MilestoneDetails { id, milestone_id } => match r {
                Ok(QueryResponse::MilestoneDetails(m)) => store@.contains_key(id@)
                    && has_milestone(store@[id@].milestones, milestone_id@) && m@
                    == store@[id@].milestones[milestone_index(
                    store@[id@].milestones,
                    milestone_id@,
                )],
                Ok(_) => false,
                Err(e) => if store@.contains_key(id@) {
                    !has_milestone(store@[id@].milestones, milestone_id@) && e
                        == ContractError::MilestoneNotFound
                } else {
                    e == ContractError::NotFound
                },
            },
            QueryMsg::ListMilestones { id } => match r {
                Ok(QueryResponse::ListMilestones(list)) => store@.contains_key(id@) && texts_view(
                    list.milestones@,
                ) == milestone_ids(store@[id@].milestones),
                Ok(_) => false,
                Err(e) => !store@.contains_key(id@) && e == ContractError::NotFound,
            },
        },
{
    match msg {
        QueryMsg::List {  } => Ok(QueryResponse::List(query_list(store))),
        QueryMsg::EscrowDetails { id } => match query_escrow_details(store, id) {
            Ok(details) => Ok(QueryResponse::EscrowDetails(details)),
            Err(e) => Err(e),
        },
        QueryMsg::MilestoneDetails { id, milestone_id } => match query_milestone_details(
            store,
            id,
            milestone_id,
        ) {
            Ok(m) => Ok(QueryResponse::MilestoneDetails(m)),
            Err(e) => Err(e),
        },
        QueryMsg::ListMilestones { id } => match query_list_milestones(store, id) {
            Ok(list) => Ok(QueryResponse::ListMilestones(list)),
            Err(e) => Err(e),
        },
    }
}

/// All that is on record of one escrow.
pub fn query_escrow_details(store: &Registry, id: String) -> (r: Result<
    EscrowDetailsResponse,
    ContractError,
>)
    ensures
        match r {
            Ok(details) => escrow_details_outcome(store@, id@) == Ok::<
                EscrowDetailsView,
                ContractError,
            >(details@),
            Err(e) => escrow_details_outcome(store@, id@) == Err::<
                EscrowDetailsView,
                ContractError,
            >(e),
        },
{
    let escrow = match store.load(id.as_str()) {
        Ok(escrow) => escrow,
        Err(e) => {
            return Err(e);
        },
    };
    let cw20_whitelist = escrow.human_whitelist();
    let native_balance = escrow.balance.native;
    let mut cw20_balance: Vec<Cw20Coin> = Vec::new();
    let tokens = escrow.balance.cw20;
    let mut k: usize = 0;
    while k < tokens.len()
        invariant
            k <= tokens.len(),
            cw20_balance.len() == k,
            forall|i: int| 0 <= i < k ==> (#[trigger] cw20_balance[i])@ == tokens[i]@,
        decreases tokens.len() - k,
    {
        cw20_balance.push(
            Cw20Coin { address: tokens[k].address.clone(), amount: tokens[k].amount },
        );
        k += 1;
    }
    assert(crate::msg::shown_token_amounts(cw20_balance@) =~= token_amounts(tokens@));
    let details = EscrowDetailsResponse {
        id,
        arbiter: escrow.arbiter,
        recipient: escrow.recipient,
        source: escrow.source,
        title: escrow.title,
        description: escrow.description,
        end_height: escrow.end_height,
        end_time: escrow.end_time,
        native_balance,
        cw20_balance,
        cw20_whitelist,
        milestones: escrow.milestones,
    };
    Ok(details)
}

/// One milestone of one escrow.
pub fn query_milestone_details(store: &Registry, id: String, milestone_id: String) -> (r: Result<
    Milestone,
    ContractError,
>)
    ensures
        match r {
            Ok(m) => store@.contains_key(id@) && has_milestone(
                store@[id@].milestones,
                milestone_id@,
            ) && m@ == store@[id@].milestones[milestone_index(
                store@[id@].milestones,
                milestone_id@,
            )],
            Err(e) => if store@.contains_key(id@) {
                !has_milestone(store@[id@].milestones, milestone_id@) && e
                    == ContractError::MilestoneNotFound
            } else {
                e == ContractError::NotFound
            },
        },
{
    let escrow = match store.load(id.as_str()) {
        Ok(escrow) => escrow,
        Err(e) => {
            return Err(e);
        },
    };
    match escrow.milestone_position(milestone_id.as_str()) {
        Some(i) => {
            proof {
                lemma_milestone_index(escrow@.milestones, milestone_id@, i as int);
            }
            Ok(escrow.milestones[i].clone())
        },
        None => {
            proof {
                lemma_no_milestone(escrow@.milestones, milestone_id@);
            }
            Err(ContractError::MilestoneNotFound)
        },
    }
}

/// The ids of all escrows on record, in ascending order.
pub fn query_list(store: &Registry) -> (r: ListEscrowsResponse)
    ensures
        ascending(ids_view(r.escrows@)),
        forall|k: Seq<char>| store@.contains_key(k) <==> ids_view(r.escrows@).contains(k),
{
    ListEscrowsResponse { escrows: all_escrow_ids(store) }
}

/// The ids of the milestones of one escrow, in the milestones' order.
pub fn query_list_milestones(store: &Registry, id: String) -> (r: Result<
    ListMilestonesResponse,
    ContractError,
>)
    ensures
        match r {
            Ok(list) => store@.contains_key(id@) && texts_view(list.milestones@) == milestone_ids(
                store@[id@].milestones,
            ),
            Err(e) => !store@.contains_key(id@) && e == ContractError::NotFound,
        },
{
    match all_escrow_milestone_ids(store, id.as_str()) {
        Ok(milestones) => Ok(ListMilestonesResponse { milestones }),
        Err(e) => Err(e),
    }
}

} // verus!
