//! What is said of the milestones of an escrow as a list: which amounts
//! still count, which milestone an id names, and how the list changes when
//! a milestone is completed or its deadlines are replaced.

use crate::asset::{aggregate, BalanceView};
use crate::state::MilestoneView;
use crate::totals::lemma_aggregate_remove_fits;
use vstd::prelude::*;

verus! {

/// The amounts of the milestones that are not completed yet, in the
/// milestones' order.
pub open spec fn outstanding(milestones: Seq<MilestoneView>) -> Seq<BalanceView>
    decreases milestones.len(),
{
    if milestones.len() == 0 {
        Seq::empty()
    } else if milestones.last().is_completed {
        outstanding(milestones.drop_last())
    } else {
        outstanding(milestones.drop_last()).push(milestones.last().amount)
    }
}

/// What an escrow still holds for its milestones: the sum of the amounts
/// of those that are not completed yet.
pub open spec fn remaining(milestones: Seq<MilestoneView>) -> BalanceView {
    aggregate(outstanding(milestones))
}

/// The amounts of all milestones, in the milestones' order.
pub open spec fn amounts(milestones: Seq<MilestoneView>) -> Seq<BalanceView> {
    Seq::new(milestones.len(), |i: int| milestones[i].amount)
}

/// The height deadlines of the milestones, in the milestones' order.
pub open spec fn end_heights(milestones: Seq<MilestoneView>) -> Seq<Option<u64>> {
    Seq::new(milestones.len(), |i: int| milestones[i].end_height)
}

/// The time deadlines of the milestones, in the milestones' order.
pub open spec fn end_times(milestones: Seq<MilestoneView>) -> Seq<Option<u64>> {
    Seq::new(milestones.len(), |i: int| milestones[i].end_time)
}

/// Every milestone is completed.
pub open spec fn all_completed(milestones: Seq<MilestoneView>) -> bool {
    forall|i: int| 0 <= i < milestones.len() ==> (#[trigger] milestones[i]).is_completed
}

/// The milestones with the one at `i` marked as completed.
pub open spec fn completed_at(milestones: Seq<MilestoneView>, i: int) -> Seq<MilestoneView> {
    milestones.update(i, MilestoneView { is_completed: true, ..milestones[i] })
}

/// The milestones with the deadlines of the one at `i` replaced, each by
/// the argument that is set.
pub open spec fn extended_at(
    milestones: Seq<MilestoneView>,
    i: int,
    end_height: Option<u64>,
    end_time: Option<u64>,
) -> Seq<MilestoneView> {
    milestones.update(
        i,
        MilestoneView {
            end_height: if end_height is Some {
                end_height
            } else {
                milestones[i].end_height
            },
            end_time: if end_time is Some {
                end_time
            } else {
                milestones[i].end_time
            },
            ..milestones[i]
        },
    )
}

/// `i` is the first milestone whose id is `id`.
pub open spec fn is_first_with_id(milestones: Seq<MilestoneView>, id: Seq<char>, i: int) -> bool {
    &&& 0 <= i < milestones.len()
    &&& milestones[i].id == id
    &&& forall|j: int| 0 <= j < i ==> (#[trigger] milestones[j]).id != id
}

/// No milestone has the id `id`.
pub open spec fn no_milestone_with_id(milestones: Seq<MilestoneView>, id: Seq<char>) -> bool {
    forall|j: int| 0 <= j < milestones.len() ==> (#[trigger] milestones[j]).id != id
}

/// Whether any milestone has the id.
pub open spec fn has_milestone(milestones: Seq<MilestoneView>, id: Seq<char>) -> bool {
    exists|i: int| is_first_with_id(milestones, id, i)
}

/// The place of the first milestone with the id.
pub open spec fn milestone_index(milestones: Seq<MilestoneView>, id: Seq<char>) -> int {
    choose|i: int| is_first_with_id(milestones, id, i)
}

/// The ids of a list of milestones, in the list's order.
pub open spec fn milestone_ids(milestones: Seq<MilestoneView>) -> Seq<Seq<char>> {
    Seq::new(milestones.len(), |i: int| milestones[i].id)
}

/// The text that describes a milestone to a reader.
pub open spec fn milestone_summary(m: MilestoneView) -> Seq<char> {
    "id: "@ + m.id + "\ntitle: "@ + m.title + "\ndescription: "@ + m.description
        + "\ncomplete: "@ + if m.is_completed {
        "true"@
    } else {
        "false"@
    }
}

/// The texts that describe a list of milestones, in the list's order.
pub open spec fn milestone_summaries(milestones: Seq<MilestoneView>) -> Seq<Seq<char>> {
    Seq::new(milestones.len(), |i: int| milestone_summary(milestones[i]))
}

/// The first milestone with the id is the only first one.
pub proof fn lemma_milestone_index(milestones: Seq<MilestoneView>, id: Seq<char>, i: int)
    requires
        is_first_with_id(milestones, id, i),
    ensures
        has_milestone(milestones, id),
        milestone_index(milestones, id) == i,
{
    let p = milestone_index(milestones, id);
    if p < i {
        assert(milestones[p].id != id);
    }
    if i < p {
        assert(milestones[i].id != id);
    }
}

/// Where no milestone has the id, none is the first with it.
pub proof fn lemma_no_milestone(milestones: Seq<MilestoneView>, id: Seq<char>)
    requires
        no_milestone_with_id(milestones, id),
    ensures
        !has_milestone(milestones, id),
{
    if has_milestone(milestones, id) {
        let p = milestone_index(milestones, id);
        assert(milestones[p].id != id);
    }
}

/// The amounts not yet completed among the first `k` milestones are a front
/// part of the amounts not yet completed among all of them.
pub proof fn lemma_outstanding_prefix(milestones: Seq<MilestoneView>, k: int) -> (n: int)
    requires
        0 <= k <= milestones.len(),
    ensures
        0 <= n <= outstanding(milestones).len(),
        outstanding(milestones.take(k)) == outstanding(milestones).take(n),
    decreases milestones.len() - k,
{
    if k == milestones.len() {
        assert(milestones.take(k) =~= milestones);
        let n = outstanding(milestones).len() as int;
        n
    } else {
        let n1 = lemma_outstanding_prefix(milestones, k + 1);
        let longer = milestones.take(k + 1);
        assert(longer.drop_last() =~= milestones.take(k));
        if longer.last().is_completed {
            n1
        } else {
            let shorter = outstanding(milestones.take(k));
            assert(shorter =~= outstanding(longer).drop_last());
            n1 - 1
        }
    }
}

/// While no milestone is completed, the amounts that count are the amounts
/// of all milestones.
pub proof fn lemma_outstanding_all(milestones: Seq<MilestoneView>)
    requires
        forall|i: int| 0 <= i < milestones.len() ==> !(#[trigger] milestones[i]).is_completed,
    ensures
        outstanding(milestones) == amounts(milestones),
    decreases milestones.len(),
{
    if milestones.len() > 0 {
        let front = milestones.drop_last();
        assert forall|i: int| 0 <= i < front.len() implies !(#[trigger] front[i]).is_completed by {
            assert(!milestones[i].is_completed);
        }
        lemma_outstanding_all(front);
    } else {
        assert(outstanding(milestones) =~= amounts(milestones));
    }
}

/// Where every milestone is completed, no amount counts.
pub proof fn lemma_none_open(milestones: Seq<MilestoneView>)
    requires
        all_completed(milestones),
    ensures
        outstanding(milestones) == Seq::<BalanceView>::empty(),
    decreases milestones.len(),
{
    if milestones.len() > 0 {
        let front = milestones.drop_last();
        assert forall|i: int| 0 <= i < front.len() implies (#[trigger] front[i]).is_completed by {
            assert(milestones[i].is_completed);
        }
        lemma_none_open(front);
    }
}

/// Completing an open milestone takes its amount, and no other, out of
/// the amounts that count.
pub proof fn lemma_outstanding_completed(milestones: Seq<MilestoneView>, i: int) -> (p: int)
    requires
        0 <= i < milestones.len(),
        !milestones[i].is_completed,
    ensures
        0 <= p < outstanding(milestones).len(),
        outstanding(milestones)[p] == milestones[i].amount,
        outstanding(completed_at(milestones, i)) == outstanding(milestones).remove(p),
    decreases milestones.len(),
{
    let after = completed_at(milestones, i);
    let front = milestones.drop_last();
    if i == milestones.len() - 1 {
        assert(after.drop_last() =~= front);
        let p = outstanding(front).len() as int;
        p
    } else {
        assert(after.drop_last() =~= completed_at(front, i));
        let p = lemma_outstanding_completed(front, i);
        if !milestones.last().is_completed {
            assert(outstanding(front).remove(p).push(milestones.last().amount)
                =~= outstanding(milestones).remove(p));
        }
        p
    }
}

/// Where every milestone but the one at `i` is completed, its amount is
/// the only one that counts.
pub proof fn lemma_only_open(milestones: Seq<MilestoneView>, i: int)
    requires
        0 <= i < milestones.len(),
        !milestones[i].is_completed,
        all_completed(completed_at(milestones, i)),
    ensures
        outstanding(milestones) == seq![milestones[i].amount],
{
    let marked = completed_at(milestones, i);
    lemma_none_open(marked);
    let p = crate::milestones::lemma_outstanding_completed(milestones, i);
    assert(outstanding(milestones).remove(p).len() == 0);
}

/// Completing a milestone leaves a balance that fits, where the balance
/// fitted before.
pub proof fn lemma_completion_fits(milestones: Seq<MilestoneView>, i: int)
    requires
        0 <= i < milestones.len(),
        !milestones[i].is_completed,
        remaining(milestones).fits(),
    ensures
        remaining(completed_at(milestones, i)).fits(),
{
    let p = lemma_outstanding_completed(milestones, i);
    lemma_aggregate_remove_fits(outstanding(milestones), p);
}

/// Replacing deadlines leaves the amounts that count as they are.
pub proof fn lemma_extension_keeps(
    milestones: Seq<MilestoneView>,
    i: int,
    end_height: Option<u64>,
    end_time: Option<u64>,
)
    requires
        0 <= i < milestones.len(),
    ensures
        outstanding(extended_at(milestones, i, end_height, end_time)) == outstanding(milestones),
    decreases milestones.len(),
{
    let after = extended_at(milestones, i, end_height, end_time);
    if i == milestones.len() - 1 {
        assert(after.drop_last() =~= milestones.drop_last());
    } else {
        lemma_extension_keeps(milestones.drop_last(), i, end_height, end_time);
        assert(after.drop_last() =~= extended_at(
            milestones.drop_last(),
            i,
            end_height,
            end_time,
        ));
    }
}

} // verus!
