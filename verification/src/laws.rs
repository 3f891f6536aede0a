//! What holds of the escrows whatever is asked of them: every operation
//! keeps each stored escrow well formed, nothing is released twice, and an
//! escrow that has left the registry is gone.

use crate::asset::{aggregate, BalanceView};
use crate::contract::{
    approve_milestone_outcome, create_milestone_outcome, create_outcome, created_escrow,
    escrow_details_outcome, execute_outcome, extend_milestone_outcome, extended_escrow,
    initial_whitelist, refund_outcome, set_recipient_outcome, with_milestones, Escrows,
};
use crate::error::ContractError;
use crate::expiration::{is_greatest, latest, lemma_latest_is_greatest, Env};
use crate::milestones::{
    all_completed, amounts, completed_at, end_heights, end_times, extended_at, has_milestone,
    is_first_with_id, lemma_milestone_index, lemma_only_open, lemma_outstanding_all,
    milestone_index, outstanding,
};
use crate::msg::{
    requested_amounts, requested_end_heights, requested_end_times, CreateMilestoneMsgView,
    CreateMsgView, DepositCheck, EscrowDetailsView, ExecuteMsg, MessageInfo, ReceiveMsg,
};
use crate::state::{escrows_wf, lemma_with_milestone, EscrowView, MilestoneView};
use crate::text::{decimal, lemma_decimal_injective};
use crate::transfer::{moved_native, moved_tokens};
use crate::totals::{
    grand_total, lemma_aggregate_merged, lemma_merged_distinct, lemma_merged_total,
    lemma_total_of_distinct, natives, tokens, total_of,
};
use crate::whitelist::{lemma_with_account, lemma_with_accounts, with_account, with_accounts};
use vstd::prelude::*;

verus! {

/// Appending the milestones of a request to an escrow without milestones
/// gives an escrow whose milestones are those of the request, all open,
/// named by position, with their token contracts on the whitelist.
pub proof fn lemma_with_milestones(base: EscrowView, msgs: Seq<CreateMilestoneMsgView>)
    requires
        base.milestones.len() == 0,
        base.cw20_whitelist.no_duplicates(),
    ensures
        with_milestones(base, msgs).ids_sequential(),
        with_milestones(base, msgs).tokens_whitelisted(),
        with_milestones(base, msgs).cw20_whitelist.no_duplicates(),
        with_milestones(base, msgs).milestones.len() == msgs.len(),
        outstanding(with_milestones(base, msgs).milestones) == requested_amounts(msgs),
        end_heights(with_milestones(base, msgs).milestones) == requested_end_heights(msgs),
        end_times(with_milestones(base, msgs).milestones) == requested_end_times(msgs),
        with_milestones(base, msgs).balance == base.balance,
        with_milestones(base, msgs).end_height == base.end_height,
        with_milestones(base, msgs).end_time == base.end_time,
        msgs.len() > 0 ==> !all_completed(with_milestones(base, msgs).milestones),
    decreases msgs.len(),
{
    if msgs.len() == 0 {
        assert(end_times(base.milestones) =~= requested_end_times(msgs));
    } else {
        let front = msgs.drop_last();
        lemma_with_milestones(base, front);
        lemma_with_milestone(with_milestones(base, front), msgs.last());
    }
}

/// An escrow is well formed when it is created.
pub proof fn lemma_created_wf(msg: CreateMsgView, sender: Seq<char>, deposit: BalanceView)
    requires
        msg.milestones.len() > 0,
    ensures
        created_escrow(msg, sender, deposit).wf(),
        created_escrow(msg, sender, deposit).balance == msg.total(),
{
    let listed = with_accounts(Seq::empty(), msg.listed_accounts());
    lemma_with_accounts(Seq::empty(), msg.listed_accounts());
    lemma_with_account(listed, deposit.cw20[0].key);
    let base = EscrowView {
        arbiter: msg.arbiter->0,
        recipient: msg.recipient,
        source: sender,
        title: msg.title,
        description: msg.description,
        end_height: latest(requested_end_heights(msg.milestones)),
        end_time: latest(requested_end_times(msg.milestones)),
        balance: msg.total(),
        cw20_whitelist: initial_whitelist(msg, deposit),
        milestones: Seq::empty(),
    };
    lemma_with_milestones(base, msg.milestones);
}

/// An escrow stays well formed when a milestone is added to it.
pub proof fn lemma_extended_escrow_wf(
    e: EscrowView,
    msg: CreateMilestoneMsgView,
    deposit: BalanceView,
)
    requires
        e.wf(),
    ensures
        extended_escrow(e, msg, deposit).wf(),
{
    let listed = EscrowView {
        cw20_whitelist: if deposit.cw20.len() > 0 {
            with_account(e.cw20_whitelist, deposit.cw20[0].key)
        } else {
            e.cw20_whitelist
        },
        ..e
    };
    lemma_with_account(e.cw20_whitelist, deposit.cw20[0].key);
    assert(listed.tokens_whitelisted()) by {
        assert forall|i: int, j: int|
            0 <= i < listed.milestones.len() && 0 <= j < listed.milestones[i].amount.cw20.len()
            implies listed.cw20_whitelist.contains(
            (#[trigger] listed.milestones[i].amount.cw20[j]).key,
        ) by {
            assert(e.cw20_whitelist.contains(e.milestones[i].amount.cw20[j].key));
        }
    }
    lemma_with_milestone(listed, msg);
}

/// An escrow stays well formed when one of its milestones is completed
/// and another is still open.
pub proof fn lemma_completed_wf(e: EscrowView, i: int)
    requires
        e.wf(),
        0 <= i < e.milestones.len(),
        !all_completed(completed_at(e.milestones, i)),
    ensures
        (EscrowView { milestones: completed_at(e.milestones, i), ..e }).recalculated().wf(),
{
    let after = (EscrowView { milestones: completed_at(e.milestones, i), ..e }).recalculated();
    assert(after.tokens_whitelisted()) by {
        assert forall|a: int, b: int|
            0 <= a < after.milestones.len() && 0 <= b < after.milestones[a].amount.cw20.len()
            implies after.cw20_whitelist.contains(
            (#[trigger] after.milestones[a].amount.cw20[b]).key,
        ) by {
            assert(e.cw20_whitelist.contains(e.milestones[a].amount.cw20[b].key));
        }
    }
    assert(after.ids_sequential()) by {
        assert forall|a: int| 0 <= a < after.milestones.len() implies (
        #[trigger] after.milestones[a]).id == decimal((a + 1) as nat) by {
            assert(e.milestones[a].id == decimal((a + 1) as nat));
        }
    }
}

/// An escrow stays well formed when the deadlines of one of its milestones
/// are replaced.
pub proof fn lemma_extended_at_wf(
    e: EscrowView,
    i: int,
    end_height: Option<u64>,
    end_time: Option<u64>,
)
    requires
        e.wf(),
        0 <= i < e.milestones.len(),
    ensures
        (EscrowView {
            milestones: extended_at(e.milestones, i, end_height, end_time),
            ..e
        }).recalculated().wf(),
{
    let after = (EscrowView {
        milestones: extended_at(e.milestones, i, end_height, end_time),
        ..e
    }).recalculated();
    assert(after.tokens_whitelisted()) by {
        assert forall|a: int, b: int|
            0 <= a < after.milestones.len() && 0 <= b < after.milestones[a].amount.cw20.len()
            implies after.cw20_whitelist.contains(
            (#[trigger] after.milestones[a].amount.cw20[b]).key,
        ) by {
            assert(e.cw20_whitelist.contains(e.milestones[a].amount.cw20[b].key));
        }
    }
    assert(after.ids_sequential()) by {
        assert forall|a: int| 0 <= a < after.milestones.len() implies (
        #[trigger] after.milestones[a]).id == decimal((a + 1) as nat) by {
            assert(e.milestones[a].id == decimal((a + 1) as nat));
        }
    }
    assert(!all_completed(after.milestones)) by {
        let a = choose|a: int|
            0 <= a < e.milestones.len() && !(#[trigger] e.milestones[a]).is_completed;
        assert(!after.milestones[a].is_completed);
    }
}

/// Whatever is asked of the registry, every escrow on record afterwards is
/// well formed, where every escrow on record was well formed before. So,
/// after every operation that changes an escrow: its balance is the sum of
/// the amounts of its milestones that are not completed; its deadlines are
/// the latest of its milestones' deadlines; every token contract of a
/// milestone amount is on its whitelist.
pub proof fn law_operations_keep_escrows_well_formed(
    store: Escrows,
    env: Env,
    info: MessageInfo,
    msg: ExecuteMsg,
    check: DepositCheck,
)
    requires
        escrows_wf(store),
    ensures
        execute_outcome(store, env, info, msg, check) matches Ok((after, _)) ==> escrows_wf(
            after,
        ),
{
    let sender = info.sender@;
    match msg {
        ExecuteMsg::Create(m) => {
            law_create_keeps(store, m@, sender, crate::contract::funds_view(info.funds@), check);
        },
        ExecuteMsg::CreateMilestone(m) => {
            law_create_milestone_keeps(store, m@, sender, crate::contract::funds_view(info.funds@));
        },
        ExecuteMsg::SetRecipient { id, recipient } => {
            law_set_recipient_keeps(store, sender, id@, crate::msg::account_view(recipient));
        },
        ExecuteMsg::ApproveMilestone { id, milestone_id } => {
            law_approve_milestone_keeps(store, env, sender, id@, milestone_id@);
        },
        ExecuteMsg::ExtendMilestone { id, milestone_id, end_height, end_time } => {
            law_extend_milestone_keeps(
                store,
                env,
                sender,
                id@,
                milestone_id@,
                end_height,
                end_time,
            );
        },
        ExecuteMsg::Refund { id } => {
            law_refund_keeps(store, env, sender, id@);
        },
        ExecuteMsg::Receive(wrapper) => {
            match wrapper.msg {
                ReceiveMsg::Create(m) => {
                    law_create_keeps(
                        store,
                        m@,
                        sender,
                        crate::contract::received_view(wrapper),
                        check,
                    );
                },
                ReceiveMsg::CreateMilestone(m) => {
                    law_create_milestone_keeps(
                        store,
                        m@,
                        sender,
                        crate::contract::received_view(wrapper),
                    );
                },
            }
        },
    }
}

/// Creating an escrow keeps every escrow on record well formed.
pub proof fn law_create_keeps(
    store: Escrows,
    msg: CreateMsgView,
    sender: Seq<char>,
    deposit: BalanceView,
    check: DepositCheck,
)
    requires
        escrows_wf(store),
    ensures
        create_outcome(store, msg, sender, deposit, check) matches Ok((after, _)) ==> escrows_wf(
            after,
        ),
{
    if msg.milestones.len() > 0 {
        lemma_created_wf(msg, sender, deposit);
    }
}

/// Adding a milestone keeps every escrow on record well formed.
pub proof fn law_create_milestone_keeps(
    store: Escrows,
    msg: CreateMilestoneMsgView,
    sender: Seq<char>,
    deposit: BalanceView,
)
    requires
        escrows_wf(store),
    ensures
        create_milestone_outcome(store, msg, sender, deposit) matches Ok((after, _))
            ==> escrows_wf(after),
{
    if store.contains_key(msg.escrow_id) {
        lemma_extended_escrow_wf(store[msg.escrow_id], msg, deposit);
    }
}

/// Setting a recipient keeps every escrow on record well formed.
pub proof fn law_set_recipient_keeps(
    store: Escrows,
    sender: Seq<char>,
    id: Seq<char>,
    recipient: Option<Seq<char>>,
)
    requires
        escrows_wf(store),
    ensures
        set_recipient_outcome(store, sender, id, recipient) matches Ok((after, _))
            ==> escrows_wf(after),
{
}

/// Approving a milestone keeps every escrow on record well formed.
pub proof fn law_approve_milestone_keeps(
    store: Escrows,
    env: Env,
    sender: Seq<char>,
    id: Seq<char>,
    milestone_id: Seq<char>,
)
    requires
        escrows_wf(store),
    ensures
        approve_milestone_outcome(store, env, sender, id, milestone_id) matches Ok((after, _))
            ==> escrows_wf(after),
{
    if store.contains_key(id) && has_milestone(store[id].milestones, milestone_id) {
        let e = store[id];
        let i = milestone_index(e.milestones, milestone_id);
        if !all_completed(completed_at(e.milestones, i)) {
            lemma_completed_wf(e, i);
        }
    }
}

/// Replacing deadlines keeps every escrow on record well formed.
pub proof fn law_extend_milestone_keeps(
    store: Escrows,
    env: Env,
    sender: Seq<char>,
    id: Seq<char>,
    milestone_id: Seq<char>,
    end_height: Option<u64>,
    end_time: Option<u64>,
)
    requires
        escrows_wf(store),
    ensures
        extend_milestone_outcome(
            store,
            env,
            sender,
            id,
            milestone_id,
            end_height,
            end_time,
        ) matches Ok((after, _)) ==> escrows_wf(after),
{
    if store.contains_key(id) && has_milestone(store[id].milestones, milestone_id) {
        let e = store[id];
        let i = milestone_index(e.milestones, milestone_id);
        lemma_extended_at_wf(e, i, end_height, end_time);
    }
}

/// A refund keeps every escrow on record well formed.
pub proof fn law_refund_keeps(store: Escrows, env: Env, sender: Seq<char>, id: Seq<char>)
    requires
        escrows_wf(store),
    ensures
        refund_outcome(store, env, sender, id) matches Ok((after, _)) ==> escrows_wf(after),
{
}

/// The balance of a well-formed escrow is the sum of the amounts of its
/// milestones that are not completed. While none is completed, that is the
/// sum of the amounts of all its milestones.
pub proof fn law_balance_is_sum_of_open_milestones(e: EscrowView)
    requires
        e.wf(),
    ensures
        e.balance == aggregate(outstanding(e.milestones)),
        (forall|i: int| 0 <= i < e.milestones.len() ==> !(#[trigger] e.milestones[i]).is_completed)
            ==> e.balance == aggregate(amounts(e.milestones)),
{
    if forall|i: int| 0 <= i < e.milestones.len() ==> !(#[trigger] e.milestones[i]).is_completed {
        lemma_outstanding_all(e.milestones);
    }
}

/// What a well-formed escrow holds of an asset, in native coins or in
/// tokens, is exactly what its open milestones hold of it together: no
/// amount is lost or made when amounts are merged.
pub proof fn law_balance_conserves_each_asset(e: EscrowView, i: int, j: int)
    requires
        e.wf(),
    ensures
        0 <= i < e.balance.native.len() ==> e.balance.native[i].amount == grand_total(
            natives(outstanding(e.milestones)),
            e.balance.native[i].key,
        ),
        0 <= j < e.balance.cw20.len() ==> e.balance.cw20[j].amount == grand_total(
            tokens(outstanding(e.milestones)),
            e.balance.cw20[j].key,
        ),
{
    let open = outstanding(e.milestones);
    lemma_aggregate_merged(open);
    lemma_merged_distinct(natives(open));
    lemma_merged_distinct(tokens(open));
    if 0 <= i < e.balance.native.len() {
        lemma_total_of_distinct(e.balance.native, i);
        lemma_merged_total(natives(open), e.balance.native[i].key);
    }
    if 0 <= j < e.balance.cw20.len() {
        lemma_total_of_distinct(e.balance.cw20, j);
        lemma_merged_total(tokens(open), e.balance.cw20[j].key);
    }
}

/// The balance of a well-formed escrow holds no denomination and no token
/// contract twice.
pub proof fn law_balance_holds_each_asset_once(e: EscrowView)
    requires
        e.wf(),
    ensures
        e.balance.distinct(),
{
    crate::asset::lemma_aggregate_distinct(outstanding(e.milestones));
}

/// Each deadline of a well-formed escrow is the greatest of the deadlines
/// that its milestones set, and absent where they set none.
pub proof fn law_deadlines_are_latest(e: EscrowView)
    requires
        e.wf(),
    ensures
        is_greatest(end_heights(e.milestones), e.end_height),
        is_greatest(end_times(e.milestones), e.end_time),
{
    lemma_latest_is_greatest(end_heights(e.milestones));
    lemma_latest_is_greatest(end_times(e.milestones));
}

/// Every token contract of every milestone amount of a well-formed escrow
/// is on its whitelist.
pub proof fn law_whitelist_covers_milestones(e: EscrowView, i: int, j: int)
    requires
        e.wf(),
        0 <= i < e.milestones.len(),
        0 <= j < e.milestones[i].amount.cw20.len(),
    ensures
        e.cw20_whitelist.contains(e.milestones[i].amount.cw20[j].key),
{
}

/// The milestones of a well-formed escrow have different ids, so an id
/// names one milestone.
pub proof fn law_milestone_ids_differ(e: EscrowView, i: int, j: int)
    requires
        e.wf(),
        0 <= i < e.milestones.len(),
        0 <= j < e.milestones.len(),
        e.milestones[i].id == e.milestones[j].id,
    ensures
        i == j,
{
    lemma_decimal_injective((i + 1) as nat, (j + 1) as nat);
}

/// A milestone is released once. After an approval, a second approval of
/// the same milestone is refused, whoever asks and whenever: the escrow is
/// not found where the first approval completed it, and otherwise the
/// request fails no later than at the test whether the milestone was
/// approved before.
pub proof fn law_milestone_is_approved_once(
    store: Escrows,
    env: Env,
    sender: Seq<char>,
    id: Seq<char>,
    milestone_id: Seq<char>,
    env2: Env,
    sender2: Seq<char>,
)
    requires
        approve_milestone_outcome(store, env, sender, id, milestone_id) is Ok,
    ensures
        ({
            let after = approve_milestone_outcome(store, env, sender, id, milestone_id)->Ok_0.0;
            let again = approve_milestone_outcome(after, env2, sender2, id, milestone_id);
            &&& again is Err
            &&& !after.contains_key(id) ==> again->Err_0 == ContractError::NotFound
            &&& after.contains_key(id) ==> again->Err_0 == ContractError::Unauthorized
                || again->Err_0 == ContractError::Expired || again->Err_0
                == ContractError::MilestoneCompleted
            &&& after.contains_key(id) && sender2 == sender && !crate::expiration::expired(
                after[id].end_height,
                after[id].end_time,
                env2,
            ) ==> again->Err_0 == ContractError::MilestoneCompleted
        }),
{
    let e = store[id];
    let i = milestone_index(e.milestones, milestone_id);
    assert(is_first_with_id(e.milestones, milestone_id, i));
    let marked = completed_at(e.milestones, i);
    if !all_completed(marked) {
        assert(is_first_with_id(marked, milestone_id, i)) by {
            assert forall|j: int| 0 <= j < i implies (#[trigger] marked[j]).id
                != milestone_id by {
                assert(e.milestones[j].id != milestone_id);
            }
        }
        lemma_milestone_index(marked, milestone_id, i);
    }
}

/// An escrow that was refunded is gone: asking for its details finds
/// nothing. The other escrows stay on record.
pub proof fn law_refunded_escrow_is_gone(
    store: Escrows,
    env: Env,
    sender: Seq<char>,
    id: Seq<char>,
)
    requires
        refund_outcome(store, env, sender, id) is Ok,
    ensures
        !refund_outcome(store, env, sender, id)->Ok_0.0.contains_key(id),
        escrow_details_outcome(refund_outcome(store, env, sender, id)->Ok_0.0, id) == Err::<
            EscrowDetailsView,
            ContractError,
        >(ContractError::NotFound),
        forall|other: Seq<char>|
            other != id ==> (refund_outcome(store, env, sender, id)->Ok_0.0.contains_key(other)
                <==> store.contains_key(other)),
{
}

/// An escrow whose last open milestone was approved is gone: asking for its
/// details finds nothing.
pub proof fn law_completed_escrow_is_gone(
    store: Escrows,
    env: Env,
    sender: Seq<char>,
    id: Seq<char>,
    milestone_id: Seq<char>,
)
    requires
        approve_milestone_outcome(store, env, sender, id, milestone_id) is Ok,
        all_completed(
            completed_at(store[id].milestones, milestone_index(store[id].milestones, milestone_id)),
        ),
    ensures
        !approve_milestone_outcome(store, env, sender, id, milestone_id)->Ok_0.0.contains_key(id),
        escrow_details_outcome(
            approve_milestone_outcome(store, env, sender, id, milestone_id)->Ok_0.0,
            id,
        ) == Err::<EscrowDetailsView, ContractError>(ContractError::NotFound),
{
}

/// Where the last open milestone of a well-formed escrow is approved, what
/// is released is the sum of that milestone's amount alone: what was
/// released for the milestones before it is not released again.
pub proof fn law_final_release_is_last_amount(
    store: Escrows,
    env: Env,
    sender: Seq<char>,
    id: Seq<char>,
    milestone_id: Seq<char>,
)
    requires
        escrows_wf(store),
        approve_milestone_outcome(store, env, sender, id, milestone_id) is Ok,
        all_completed(
            completed_at(store[id].milestones, milestone_index(store[id].milestones, milestone_id)),
        ),
    ensures
        ({
            let e = store[id];
            let m = e.milestones[milestone_index(e.milestones, milestone_id)];
            e.balance == aggregate(seq![m.amount])
        }),
{
    let e = store[id];
    let i = milestone_index(e.milestones, milestone_id);
    lemma_only_open(e.milestones, i);
}

/// A milestone as it is later: the same id, title, description and amount,
/// and completed if it was completed.
pub open spec fn milestone_continues(before: MilestoneView, after: MilestoneView) -> bool {
    &&& after.id == before.id
    &&& after.title == before.title
    &&& after.description == before.description
    &&& after.amount == before.amount
    &&& before.is_completed ==> after.is_completed
}

/// An escrow as it is later: for the same parties and under the same
/// title; with the milestones it had, in their places, and perhaps more
/// after them; with a whitelist that names what it named.
pub open spec fn escrow_continues(before: EscrowView, after: EscrowView) -> bool {
    &&& after.arbiter == before.arbiter
    &&& after.source == before.source
    &&& after.title == before.title
    &&& after.description == before.description
    &&& before.milestones.len() <= after.milestones.len()
    &&& forall|i: int|
        0 <= i < before.milestones.len() ==> milestone_continues(
            #[trigger] before.milestones[i],
            after.milestones[i],
        )
    &&& forall|x: Seq<char>|
        before.cw20_whitelist.contains(x) ==> #[trigger] after.cw20_whitelist.contains(x)
}

/// No operation rewrites an escrow: one that stays on record keeps its
/// parties, its title, and its milestones with their ids and amounts.
/// Milestones are added at the end only, a completed milestone stays
/// completed, and the whitelist loses no account.
pub proof fn law_escrows_only_move_forward(
    store: Escrows,
    env: Env,
    info: MessageInfo,
    msg: ExecuteMsg,
    check: DepositCheck,
    id: Seq<char>,
)
    requires
        execute_outcome(store, env, info, msg, check) is Ok,
        store.contains_key(id),
        execute_outcome(store, env, info, msg, check)->Ok_0.0.contains_key(id),
    ensures
        escrow_continues(store[id], execute_outcome(store, env, info, msg, check)->Ok_0.0[id]),
{
    let before = store[id];
    match msg {
        ExecuteMsg::Create(m) => {},
        ExecuteMsg::CreateMilestone(m) => {
            if m@.escrow_id == id {
                lemma_added_continues(before, m@, crate::contract::funds_view(info.funds@));
            }
        },
        ExecuteMsg::SetRecipient { id: named, recipient } => {},
        ExecuteMsg::ApproveMilestone { id: named, milestone_id } => {
            if named@ == id {
                let i = milestone_index(before.milestones, milestone_id@);
                assert(is_first_with_id(before.milestones, milestone_id@, i));
            }
        },
        ExecuteMsg::ExtendMilestone { id: named, milestone_id, end_height, end_time } => {
            if named@ == id {
                let i = milestone_index(before.milestones, milestone_id@);
                assert(is_first_with_id(before.milestones, milestone_id@, i));
            }
        },
        ExecuteMsg::Refund { id: named } => {},
        ExecuteMsg::Receive(wrapper) => {
            match wrapper.msg {
                ReceiveMsg::Create(m) => {},
                ReceiveMsg::CreateMilestone(m) => {
                    if m@.escrow_id == id {
                        lemma_added_continues(
                            before,
                            m@,
                            crate::contract::received_view(wrapper),
                        );
                    }
                },
            }
        },
    }
}

/// An escrow with one more milestone continues the escrow that it was.
pub proof fn lemma_added_continues(
    e: EscrowView,
    msg: CreateMilestoneMsgView,
    deposit: BalanceView,
)
    ensures
        escrow_continues(e, extended_escrow(e, msg, deposit)),
{
    let listed = if deposit.cw20.len() > 0 {
        with_account(e.cw20_whitelist, deposit.cw20[0].key)
    } else {
        e.cw20_whitelist
    };
    lemma_with_account(e.cw20_whitelist, deposit.cw20[0].key);
    crate::whitelist::lemma_with_tokens(listed, msg.amount.cw20);
}

/// What an approval releases is what leaves the balance: where a milestone
/// of a well-formed escrow is approved and the escrow stays on record, the
/// escrow held of every asset, before, what it holds afterwards and what
/// the milestone's amount holds, together. The instructions that are
/// answered move the milestone's amount to the recipient.
pub proof fn law_release_leaves_the_rest(
    store: Escrows,
    env: Env,
    sender: Seq<char>,
    id: Seq<char>,
    milestone_id: Seq<char>,
    key: Seq<char>,
)
    requires
        escrows_wf(store),
        approve_milestone_outcome(store, env, sender, id, milestone_id) is Ok,
        approve_milestone_outcome(store, env, sender, id, milestone_id)->Ok_0.0.contains_key(id),
    ensures
        ({
            let outcome = approve_milestone_outcome(store, env, sender, id, milestone_id)->Ok_0;
            let before = store[id];
            let after = outcome.0[id];
            let i = milestone_index(before.milestones, milestone_id);
            let released = before.milestones[i].amount;
            &&& total_of(before.balance.native, key) == total_of(after.balance.native, key)
                + total_of(released.native, key)
            &&& total_of(before.balance.cw20, key) == total_of(after.balance.cw20, key) + total_of(
                released.cw20,
                key,
            )
            &&& crate::transfer::transfers(before.recipient->0, released) == Some(
                outcome.1.messages,
            )
        }),
{
    let e = store[id];
    let i = milestone_index(e.milestones, milestone_id);
    let open = outstanding(e.milestones);
    let p = crate::milestones::lemma_outstanding_completed(e.milestones, i);
    let rest = open.remove(p);
    lemma_aggregate_merged(open);
    lemma_aggregate_merged(rest);
    lemma_merged_total(natives(open), key);
    lemma_merged_total(natives(rest), key);
    lemma_merged_total(tokens(open), key);
    lemma_merged_total(tokens(rest), key);
    assert(natives(rest) =~= natives(open).remove(p));
    assert(tokens(rest) =~= tokens(open).remove(p));
    crate::totals::lemma_grand_total_remove(natives(open), p, key);
    crate::totals::lemma_grand_total_remove(tokens(open), p, key);
}

/// What the escrow under an id holds of a native asset; nothing where no
/// escrow has the id.
pub open spec fn held_native(store: Escrows, id: Seq<char>, key: Seq<char>) -> nat {
    if store.contains_key(id) {
        total_of(store[id].balance.native, key)
    } else {
        0
    }
}

/// What the escrow under an id holds of a token; nothing where no escrow
/// has the id.
pub open spec fn held_tokens(store: Escrows, id: Seq<char>, key: Seq<char>) -> nat {
    if store.contains_key(id) {
        total_of(store[id].balance.cw20, key)
    } else {
        0
    }
}

/// The escrow that a request is about.
pub open spec fn named_escrow(msg: ExecuteMsg) -> Seq<char> {
    match msg {
        ExecuteMsg::Create(m) => m.id@,
        ExecuteMsg::CreateMilestone(m) => m.escrow_id@,
        ExecuteMsg::SetRecipient { id, .. } => id@,
        ExecuteMsg::ApproveMilestone { id, .. } => id@,
        ExecuteMsg::ExtendMilestone { id, .. } => id@,
        ExecuteMsg::Refund { id } => id@,
        ExecuteMsg::Receive(wrapper) => match wrapper.msg {
            ReceiveMsg::Create(m) => m.id@,
            ReceiveMsg::CreateMilestone(m) => m.escrow_id@,
        },
    }
}

/// What a request puts under milestones: the sum of the milestones of a
/// new escrow, the amount of a new milestone, and nothing otherwise.
pub open spec fn pledged(msg: ExecuteMsg) -> BalanceView {
    match msg {
        ExecuteMsg::Create(m) => m@.total(),
        ExecuteMsg::CreateMilestone(m) => m@.amount,
        ExecuteMsg::Receive(wrapper) => match wrapper.msg {
            ReceiveMsg::Create(m) => m@.total(),
            ReceiveMsg::CreateMilestone(m) => m@.amount,
        },
        _ => BalanceView::empty(),
    }
}

/// Every operation accounts for what the escrows hold. Of every asset, what
/// the escrow of the request holds afterwards, together with what the
/// answer instructs the ledger to move, is what it held before together
/// with what the request put under milestones. Nothing is released that was
/// not held, and nothing that was held is dropped. The other escrows hold
/// what they held.
pub proof fn law_operations_account_for_every_asset(
    store: Escrows,
    env: Env,
    info: MessageInfo,
    msg: ExecuteMsg,
    check: DepositCheck,
    id: Seq<char>,
    key: Seq<char>,
)
    requires
        escrows_wf(store),
        execute_outcome(store, env, info, msg, check) is Ok,
    ensures
        ({
            let (after, answer) = execute_outcome(store, env, info, msg, check)->Ok_0;
            if id == named_escrow(msg) {
                &&& held_native(after, id, key) + moved_native(answer.messages, key)
                    == held_native(store, id, key) + total_of(pledged(msg).native, key)
                &&& held_tokens(after, id, key) + moved_tokens(answer.messages, key)
                    == held_tokens(store, id, key) + total_of(pledged(msg).cw20, key)
            } else {
                &&& held_native(after, id, key) == held_native(store, id, key)
                &&& held_tokens(after, id, key) == held_tokens(store, id, key)
            }
        }),
{
    let sender = info.sender@;
    match msg {
        ExecuteMsg::Create(m) => {
            lemma_created_wf(m@, sender, crate::contract::funds_view(info.funds@));
        },
        ExecuteMsg::CreateMilestone(m) => {
            lemma_added_accounts(
                store[m@.escrow_id],
                m@,
                crate::contract::funds_view(info.funds@),
                key,
            );
        },
        ExecuteMsg::SetRecipient { id: named, recipient } => {},
        ExecuteMsg::ApproveMilestone { id: named, milestone_id } => {
            let e = store[named@];
            let i = milestone_index(e.milestones, milestone_id@);
            assert(is_first_with_id(e.milestones, milestone_id@, i));
            if all_completed(completed_at(e.milestones, i)) {
                crate::transfer::lemma_transfers_move_all(e.recipient->0, e.balance, key);
            } else {
                law_release_leaves_the_rest(store, env, sender, named@, milestone_id@, key);
                crate::transfer::lemma_transfers_move_all(
                    e.recipient->0,
                    e.milestones[i].amount,
                    key,
                );
            }
        },
        ExecuteMsg::ExtendMilestone { id: named, milestone_id, end_height, end_time } => {
            let e = store[named@];
            let i = milestone_index(e.milestones, milestone_id@);
            assert(is_first_with_id(e.milestones, milestone_id@, i));
            crate::milestones::lemma_extension_keeps(e.milestones, i, end_height, end_time);
        },
        ExecuteMsg::Refund { id: named } => {
            let e = store[named@];
            crate::transfer::lemma_transfers_move_all(e.source, e.balance, key);
        },
        ExecuteMsg::Receive(wrapper) => {
            match wrapper.msg {
                ReceiveMsg::Create(m) => {
                    lemma_created_wf(m@, sender, crate::contract::received_view(wrapper));
                },
                ReceiveMsg::CreateMilestone(m) => {
                    lemma_added_accounts(
                        store[m@.escrow_id],
                        m@,
                        crate::contract::received_view(wrapper),
                        key,
                    );
                },
            }
        },
    }
}

/// An escrow with one more milestone holds, of every asset, what it held
/// and what the milestone's amount holds.
pub proof fn lemma_added_accounts(
    e: EscrowView,
    msg: CreateMilestoneMsgView,
    deposit: BalanceView,
    key: Seq<char>,
)
    requires
        e.wf(),
    ensures
        total_of(extended_escrow(e, msg, deposit).balance.native, key) == total_of(
            e.balance.native,
            key,
        ) + total_of(msg.amount.native, key),
        total_of(extended_escrow(e, msg, deposit).balance.cw20, key) == total_of(
            e.balance.cw20,
            key,
        ) + total_of(msg.amount.cw20, key),
{
    let added = crate::state::new_milestone(e.milestones.len(), msg);
    assert(e.milestones.push(added).drop_last() =~= e.milestones);
    assert(outstanding(e.milestones).push(msg.amount).drop_last() =~= outstanding(e.milestones));
    crate::totals::lemma_total_credit_all(e.balance.native, msg.amount.native, key);
    crate::totals::lemma_total_credit_all(e.balance.cw20, msg.amount.cw20, key);
}

} // verus!
