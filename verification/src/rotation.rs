//! The arithmetic of round-robin rotation over health flags.
//!
//! A pool's health is a sequence of flags, one per backend, in rotation
//! order. Selection looks at nothing else: it ranks the healthy positions in
//! ascending order and takes the one whose rank is the cursor modulo their
//! number.

use vstd::prelude::*;

verus! {

/// The positions of the flags that are set, in ascending order.
pub open spec fn healthy_positions(flags: Seq<bool>) -> Seq<int>
    decreases flags.len(),
{
    if flags.len() == 0 {
        Seq::empty()
    } else if flags.last() {
        healthy_positions(flags.drop_last()).push(flags.len() - 1)
    } else {
        healthy_positions(flags.drop_last())
    }
}

/// The rank, among the healthy positions, that a selection with the given
/// cursor takes: the cursor modulo their number.
pub open spec fn chosen_rank(flags: Seq<bool>, cursor: nat) -> int
    recommends
        healthy_positions(flags).len() > 0,
{
    (cursor % healthy_positions(flags).len()) as int
}

/// The position that a selection with the given cursor yields, or `None`
/// when no flag is set.
pub open spec fn chosen_position(flags: Seq<bool>, cursor: nat) -> Option<int> {
    if healthy_positions(flags).len() == 0 {
        None
    } else {
        Some(healthy_positions(flags)[chosen_rank(flags, cursor)])
    }
}

/// The cursor that follows `cursor`: one more, starting over from zero after
/// the largest value that the machine can hold.
pub open spec fn next_cursor(cursor: usize) -> usize {
    if cursor == usize::MAX {
        0
    } else {
        (cursor + 1) as usize
    }
}

/// `healthy_positions` lists exactly the positions whose flag is set, each
/// once, in ascending order.
pub proof fn lemma_healthy_positions(flags: Seq<bool>)
    ensures
        healthy_positions(flags).len() <= flags.len(),
        healthy_positions(flags).no_duplicates(),
        forall|k: int|
            0 <= k < healthy_positions(flags).len() ==> 0 <= #[trigger] healthy_positions(flags)[k]
                < flags.len() && flags[healthy_positions(flags)[k]],
        forall|a: int, b: int|
            0 <= a < b < healthy_positions(flags).len() ==> #[trigger] healthy_positions(flags)[a]
                < #[trigger] healthy_positions(flags)[b],
        forall|i: int|
            0 <= i < flags.len() && flags[i] ==> #[trigger] healthy_positions(flags).contains(i),
    decreases flags.len(),
{
    if flags.len() > 0 {
        let front = flags.drop_last();
        let inner = healthy_positions(front);
        let all = healthy_positions(flags);
        lemma_healthy_positions(front);
        assert forall|i: int| 0 <= i < flags.len() && flags[i] implies #[trigger] all.contains(
            i,
        ) by {
            if i < front.len() {
                assert(inner.contains(i));
                let k = choose|k: int| 0 <= k < inner.len() && inner[k] == i;
                assert(all[k] == i);
            } else {
                assert(all[all.len() - 1] == i);
            }
        }
    }
}

/// The healthy positions of a prefix of `flags` open the healthy positions
/// of `flags`.
pub proof fn lemma_healthy_positions_prefix(flags: Seq<bool>, n: int)
    requires
        0 <= n <= flags.len(),
    ensures
        healthy_positions(flags.take(n)).len() <= healthy_positions(flags).len(),
        healthy_positions(flags.take(n)) == healthy_positions(flags).take(
            healthy_positions(flags.take(n)).len() as int,
        ),
    decreases flags.len(),
{
    if n == flags.len() {
        assert(flags.take(n) == flags);
    } else {
        let front = flags.drop_last();
        assert(flags.take(n) == front.take(n));
        lemma_healthy_positions_prefix(front, n);
    }
}

/// Counts the flags that are set.
pub fn count_healthy(flags: &[bool]) -> (count: usize)
    ensures
        count == healthy_positions(flags@).len(),
{
    let mut count: usize = 0;
    let mut i: usize = 0;
    while i < flags.len()
        invariant
            i <= flags.len(),
            count <= i,
            count == healthy_positions(flags@.take(i as int)).len(),
        decreases flags.len() - i,
    {
        proof {
            assert(flags@.take(i + 1).drop_last() == flags@.take(i as int));
        }
        if flags[i] {
            count = count + 1;
        }
        i = i + 1;
    }
    proof {
        assert(flags@.take(i as int) == flags@);
    }
    count
}

/// Finds the position of the set flag that has `rank` set flags before it;
/// `None` where fewer than `rank + 1` flags are set.
pub fn nth_healthy(flags: &[bool], rank: usize) -> (position: Option<usize>)
    ensures
        match position {
            Some(p) => rank < healthy_positions(flags@).len() && p == healthy_positions(
                flags@,
            )[rank as int] && p < flags.len() && flags[p as int],
            None => rank >= healthy_positions(flags@).len(),
        },
{
    let mut before: usize = 0;
    let mut i: usize = 0;
    while i < flags.len()
        invariant
            i <= flags.len(),
            before <= i,
            before <= rank,
            before == healthy_positions(flags@.take(i as int)).len(),
        decreases flags.len() - i,
    {
        proof {
            assert(flags@.take(i + 1).drop_last() == flags@.take(i as int));
            lemma_healthy_positions_prefix(flags@, i + 1);
        }
        if flags[i] {
            if before == rank {
                proof {
                    let grown = healthy_positions(flags@.take(i + 1));
                    assert(healthy_positions(flags@).take(grown.len() as int)[rank as int] == i);
                }
                return Some(i);
            }
            before = before + 1;
        }
        i = i + 1;
    }
    proof {
        assert(flags@.take(i as int) == flags@);
    }
    None
}

/// Picks the position that a selection with `cursor` yields: the healthy
/// position whose rank is `cursor` modulo the number of healthy positions.
/// Returns `None` exactly when no flag is set.
pub fn choose_position(flags: &[bool], cursor: usize) -> (position: Option<usize>)
    ensures
        match position {
            Some(p) => chosen_position(flags@, cursor as nat) == Some(p as int) && p < flags.len()
                && flags[p as int],
            None => chosen_position(flags@, cursor as nat) is None,
        },
{
    let count = count_healthy(flags);
    if count == 0 {
        None
    } else {
        nth_healthy(flags, cursor % count)
    }
}

} // verus!
