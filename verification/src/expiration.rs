//! Deadlines by block height and by time: when one has passed, and the
//! latest of several.

use vstd::prelude::*;

verus! {

/// Nanoseconds in one second.
pub const NANOS_PER_SECOND: u64 = 1_000_000_000;

/// The moment at which a request is handled.
#[derive(Debug, Clone, Copy, PartialEq, Eq)]
pub struct Env {
    /// Height of the current block.
    pub height: u64,
    /// Time of the current block, in nanoseconds since the epoch.
    pub time: u64,
}

/// A deadline has passed when a height is set and the block is above it, or
/// a time (in seconds since the epoch) is set and the block's time is after it.
pub open spec fn expired(end_height: Option<u64>, end_time: Option<u64>, env: Env) -> bool {
    ||| end_height matches Some(h) && env.height > h
    ||| end_time matches Some(t) && env.time > t * NANOS_PER_SECOND
}

/// Decides whether a deadline has passed at `env`.
pub fn is_expired(end_height: Option<u64>, end_time: Option<u64>, env: &Env) -> (r: bool)
    ensures
        r == expired(end_height, end_time, *env),
{
    let by_height = match end_height {
        Some(h) => env.height > h,
        None => false,
    };
    let by_time = match end_time {
        Some(t) => {
            let limit: u128 = (t as u128) * (NANOS_PER_SECOND as u128);
            (env.time as u128) > limit
        },
        None => false,
    };
    by_height || by_time
}

/// The later of two optional deadlines; an absent one never wins.
pub open spec fn later(a: Option<u64>, b: Option<u64>) -> Option<u64> {
    match (a, b) {
        (None, _) => b,
        (_, None) => a,
        (Some(x), Some(y)) => if x >= y {
            a
        } else {
            b
        },
    }
}

/// The latest of a list of optional deadlines, absent where none is set.
pub open spec fn latest(deadlines: Seq<Option<u64>>) -> Option<u64>
    decreases deadlines.len(),
{
    if deadlines.len() == 0 {
        None
    } else {
        later(latest(deadlines.drop_last()), deadlines.last())
    }
}

/// An absent deadline, or one that is at most `top`.
pub open spec fn not_after(d: Option<u64>, top: u64) -> bool {
    match d {
        Some(x) => x <= top,
        None => true,
    }
}

/// `m` is the greatest deadline that is set in the list, or absent where
/// the list sets none.
pub open spec fn is_greatest(deadlines: Seq<Option<u64>>, m: Option<u64>) -> bool {
    match m {
        None => forall|i: int| 0 <= i < deadlines.len() ==> deadlines[i] is None,
        Some(top) => {
            &&& exists|i: int| 0 <= i < deadlines.len() && deadlines[i] == Some(top)
            &&& forall|i: int| 0 <= i < deadlines.len() ==> not_after(#[trigger] deadlines[i], top)
        },
    }
}

/// The latest deadline is the maximum of those that are set.
pub proof fn lemma_latest_is_greatest(deadlines: Seq<Option<u64>>)
    ensures
        is_greatest(deadlines, latest(deadlines)),
    decreases deadlines.len(),
{
    if deadlines.len() > 0 {
        let front = deadlines.drop_last();
        lemma_latest_is_greatest(front);
        assert forall|i: int| 0 <= i < front.len() implies front[i] == deadlines[i] by {}
        let m = latest(deadlines);
        match m {
            None => {
                assert forall|i: int| 0 <= i < deadlines.len() implies deadlines[i] is None by {
                    if i < front.len() {
                        assert(front[i] is None);
                    }
                }
            },
            Some(top) => {
                if deadlines.last() == Some(top) {
                    assert(deadlines[deadlines.len() - 1] == Some(top));
                } else {
                    let i = choose|i: int| 0 <= i < front.len() && front[i] == Some(top);
                    assert(deadlines[i] == Some(top));
                }
                assert forall|i: int| 0 <= i < deadlines.len() implies not_after(
                    #[trigger] deadlines[i],
                    top,
                ) by {
                    if i < front.len() {
                        assert(front[i] == deadlines[i]);
                        if latest(front) is Some {
                            assert(not_after(front[i], latest(front)->0));
                        } else {
                            assert(front[i] is None);
                        }
                    }
                }
            },
        }
    }
}

/// The later of two optional deadlines.
pub fn later_of(a: Option<u64>, b: Option<u64>) -> (r: Option<u64>)
    ensures
        r == later(a, b),
{
    match (a, b) {
        (None, _) => b,
        (_, None) => a,
        (Some(x), Some(y)) => if x >= y {
            a
        } else {
            b
        },
    }
}

} // verus!
