//! What holds of the rotation over any run of selections and health changes.
//!
//! The contracts of `Selector::select`, `LB::route` and `Pool::set_health`
//! say what one call does, in terms of `chosen_position`, `next_cursor` and
//! `PoolView::with_health`. The theorems here follow those functions over
//! many calls.

use crate::pool::PoolView;
use crate::rotation::{
    chosen_position, chosen_rank, healthy_positions, lemma_healthy_positions, next_cursor,
};
use vstd::arithmetic::div_mod::{
    lemma_fundamental_div_mod, lemma_fundamental_div_mod_converse, lemma_mod_bound,
    lemma_mod_mod,
};
use vstd::prelude::*;

verus! {

/// The cursor after `selections` selections that each yielded a backend.
pub open spec fn cursor_after(cursor: usize, selections: nat) -> usize
    decreases selections,
{
    if selections == 0 {
        cursor
    } else {
        next_cursor(cursor_after(cursor, (selections - 1) as nat))
    }
}

/// The pool after the health changes `changes`, applied in order. A change
/// is a position and the flag that it gets.
pub open spec fn after_changes(pool: PoolView, changes: Seq<(int, bool)>) -> PoolView
    decreases changes.len(),
{
    if changes.len() == 0 {
        pool
    } else {
        after_changes(pool, changes.drop_last()).with_health(changes.last().0, changes.last().1)
    }
}

/// The number of values that the cursor can take.
pub open spec fn cursor_span() -> int {
    usize::MAX + 1
}

/// Whether the rotation over `healthy` backends stays exact through
/// `selections` selections from `cursor` on: the cursor does not start over
/// in them, or it starts over where a round of the rotation ends, which it
/// does where the number of its values is a multiple of `healthy`.
pub open spec fn rotation_unbroken(cursor: usize, selections: nat, healthy: nat) -> bool {
    cursor + selections <= usize::MAX || cursor_span() % (healthy as int) == 0
}

/// The cursor counts the selections that yielded a backend, modulo the
/// number of values that it can take.
pub proof fn lemma_cursor_counts_selections(cursor: usize, selections: nat)
    ensures
        cursor_after(cursor, selections) == (cursor + selections) % cursor_span(),
        cursor + selections <= usize::MAX ==> cursor_after(cursor, selections) == cursor
            + selections,
    decreases selections,
{
    if selections > 0 {
        lemma_cursor_counts_selections(cursor, (selections - 1) as nat);
        lemma_mod_offset(cursor + selections - 1, 1, cursor_span());
    } else {
        lemma_mod_offset(cursor as int, 0, cursor_span());
    }
}

/// Exact round robin under a stable healthy set: while the health flags stay
/// as they are and the rotation is unbroken, the selection made after
/// `selections` earlier ones yields the healthy backend whose rank is
/// `cursor + selections` modulo the number of healthy backends.
pub proof fn lemma_round_robin(health: Seq<bool>, cursor: usize, selections: nat)
    requires
        healthy_positions(health).len() > 0,
        rotation_unbroken(cursor, selections, healthy_positions(health).len()),
    ensures
        chosen_rank(health, cursor_after(cursor, selections) as nat) == (cursor + selections)
            % healthy_positions(health).len() as int,
        chosen_position(health, cursor_after(cursor, selections) as nat) == Some(
            healthy_positions(health)[(cursor + selections) % healthy_positions(health).len()
                as int],
        ),
{
    let n = healthy_positions(health).len() as int;
    lemma_cursor_counts_selections(cursor, selections);
    if cursor + selections > usize::MAX {
        lemma_fundamental_div_mod(cursor_span(), n);
        lemma_mod_mod(cursor + selections, n, cursor_span() / n);
    }
    lemma_mod_bound(cursor + selections, n);
}

/// Each selection takes the healthy backend that follows the one before it
/// in rotation order, and the first follows the last. This holds while the
/// health flags stay as they are and the rotation is unbroken.
pub proof fn lemma_selection_steps(health: Seq<bool>, cursor: usize)
    requires
        healthy_positions(health).len() > 0,
        rotation_unbroken(cursor, 1, healthy_positions(health).len()),
    ensures
        0 <= chosen_rank(health, cursor as nat) < healthy_positions(health).len(),
        chosen_rank(health, next_cursor(cursor) as nat) == if chosen_rank(health, cursor as nat)
            + 1 == healthy_positions(health).len() {
            0
        } else {
            chosen_rank(health, cursor as nat) + 1
        },
{
    lemma_round_robin(health, cursor, 1);
    assert(cursor_after(cursor, 1) == next_cursor(cursor_after(cursor, 0)));
    lemma_mod_offset(cursor as int, 1, healthy_positions(health).len() as int);
}

/// The remainder after adding `a` to `x`, where `a` is no more than the
/// divisor: the sum of `a` and the remainder of `x`, less the divisor where
/// that sum reaches it.
proof fn lemma_mod_offset(x: int, a: int, n: int)
    requires
        0 <= x,
        0 <= a <= n,
        0 < n,
    ensures
        0 <= x % n < n,
        (x + a) % n == if x % n + a >= n {
            x % n + a - n
        } else {
            x % n + a
        },
{
    let q = x / n;
    let r = x % n;
    lemma_fundamental_div_mod(x, n);
    lemma_mod_bound(x, n);
    if r + a >= n {
        assert((q + 1) * n == q * n + n) by (nonlinear_arith);
        lemma_fundamental_div_mod_converse(x + a, n, q + 1, r + a - n);
    } else {
        lemma_fundamental_div_mod_converse(x + a, n, q, r + a);
    }
}

/// Every healthy backend is visited before any is visited again: of as many
/// selections in a row as there are healthy backends, no two yield the same
/// backend, and each healthy backend is yielded by one of them. This holds
/// while the health flags stay as they are and the rotation is unbroken.
pub proof fn lemma_rotation_visits_each_once(health: Seq<bool>, cursor: usize)
    requires
        healthy_positions(health).len() > 0,
        rotation_unbroken(
            cursor,
            (healthy_positions(health).len() - 1) as nat,
            healthy_positions(health).len(),
        ),
    ensures
        forall|a: nat, b: nat|
            a < b < healthy_positions(health).len() ==> chosen_position(
                health,
                #[trigger] cursor_after(cursor, a) as nat,
            ) != chosen_position(health, #[trigger] cursor_after(cursor, b) as nat),
        forall|p: int|
            0 <= p < health.len() && #[trigger] health[p] ==> exists|a: nat|
                a < healthy_positions(health).len() && chosen_position(
                    health,
                    #[trigger] cursor_after(cursor, a) as nat,
                ) == Some(p),
{
    let ranked = healthy_positions(health);
    let n = ranked.len() as int;
    lemma_healthy_positions(health);
    assert forall|a: nat, b: nat| a < b < ranked.len() implies chosen_position(
        health,
        #[trigger] cursor_after(cursor, a) as nat,
    ) != chosen_position(health, #[trigger] cursor_after(cursor, b) as nat) by {
        lemma_round_robin(health, cursor, a);
        lemma_round_robin(health, cursor, b);
        lemma_mod_offset(cursor as int, a as int, n);
        lemma_mod_offset(cursor as int, b as int, n);
        assert((cursor + a) % n != (cursor + b) % n);
    }
    assert forall|p: int| 0 <= p < health.len() && #[trigger] health[p] implies exists|a: nat|
        a < ranked.len() && chosen_position(health, #[trigger] cursor_after(cursor, a) as nat)
            == Some(p) by {
        assert(ranked.contains(p));
        let rank = choose|r: int| 0 <= r < ranked.len() && ranked[r] == p;
        let start = cursor as int % n;
        let a = if rank >= start {
            (rank - start) as nat
        } else {
            (rank - start + n) as nat
        };
        lemma_round_robin(health, cursor, a);
        lemma_mod_offset(cursor as int, a as int, n);
    }
}

/// Where every flag is set, the healthy positions are all the positions.
pub proof fn lemma_all_healthy(health: Seq<bool>)
    requires
        forall|i: int| 0 <= i < health.len() ==> health[i],
    ensures
        healthy_positions(health) == Seq::new(health.len(), |i: int| i),
    decreases health.len(),
{
    if health.len() > 0 {
        lemma_all_healthy(health.drop_last());
    }
}

/// A pool that was just registered is visited in the order of its addresses:
/// for as long as no health flag changes and the rotation is unbroken, the
/// selection made after `selections` earlier ones yields the backend at
/// position `selections` modulo the size of the pool.
pub proof fn lemma_registered_pool_rotates(addresses: Seq<Seq<char>>, selections: nat)
    requires
        addresses.len() > 0,
        rotation_unbroken(0, selections, addresses.len()),
    ensures
        chosen_position(
            PoolView::registered(addresses).health,
            cursor_after(0, selections) as nat,
        ) == Some(selections as int % addresses.len() as int),
{
    let health = PoolView::registered(addresses).health;
    lemma_all_healthy(health);
    lemma_round_robin(health, 0, selections);
}

/// Selection is exhausted exactly when no backend is healthy, whatever the
/// cursor.
pub proof fn lemma_exhausted_iff_none_healthy(health: Seq<bool>, cursor: nat)
    ensures
        chosen_position(health, cursor) is None <==> forall|i: int|
            0 <= i < health.len() ==> !health[i],
{
    lemma_healthy_positions(health);
    if healthy_positions(health).len() == 0 {
        assert forall|i: int| 0 <= i < health.len() implies !health[i] by {
            if health[i] {
                assert(healthy_positions(health).contains(i));
            }
        }
    }
}

/// A selection never yields a backend that is marked unhealthy, whatever the
/// cursor.
pub proof fn lemma_chosen_is_healthy(health: Seq<bool>, cursor: nat)
    ensures
        chosen_position(health, cursor) matches Some(p) ==> 0 <= p < health.len() && health[p],
{
    lemma_healthy_positions(health);
}

/// A backend that is marked unhealthy is not selected until it is marked
/// healthy again: after `position` was marked unhealthy, and after any run of
/// health changes none of which marks it healthy, no cursor selects it.
pub proof fn lemma_unhealthy_is_never_selected(
    pool: PoolView,
    position: int,
    changes: Seq<(int, bool)>,
    cursor: nat,
)
    requires
        0 <= position < pool.health.len(),
        forall|i: int|
            0 <= i < changes.len() ==> !((#[trigger] changes[i]).0 == position && changes[i].1),
    ensures
        after_changes(pool.with_health(position, false), changes).health.len()
            == pool.health.len(),
        !after_changes(pool.with_health(position, false), changes).health[position],
        chosen_position(after_changes(pool.with_health(position, false), changes).health, cursor)
            != Some(position),
    decreases changes.len(),
{
    if changes.len() > 0 {
        lemma_unhealthy_is_never_selected(pool, position, changes.drop_last(), cursor);
    }
    lemma_chosen_is_healthy(
        after_changes(pool.with_health(position, false), changes).health,
        cursor,
    );
}

/// A health change touches one backend: afterwards the backend at `position`
/// is in the rotation exactly when it was marked healthy, and every other
/// backend is in the rotation exactly when it was before. No backend is in
/// the rotation twice.
pub proof fn lemma_health_change_touches_one(pool: PoolView, position: int, healthy: bool)
    requires
        0 <= position < pool.health.len(),
    ensures
        pool.with_health(position, healthy).addresses == pool.addresses,
        healthy_positions(pool.with_health(position, healthy).health).no_duplicates(),
        forall|q: int|
            q != position && 0 <= q < pool.health.len() ==> pool.with_health(
                position,
                healthy,
            ).health[q] == #[trigger] pool.health[q],
        healthy_positions(pool.with_health(position, healthy).health).contains(position)
            == healthy,
        forall|q: int|
            q != position ==> healthy_positions(
                pool.with_health(position, healthy).health,
            ).contains(q) == #[trigger] healthy_positions(pool.health).contains(q),
{
    lemma_healthy_positions(pool.health);
    lemma_healthy_positions(pool.with_health(position, healthy).health);
}

/// Marking a healthy backend unhealthy and then healthy again gives back the
/// pool as it was: the same addresses, the same flags, and so the same
/// rotation.
pub proof fn lemma_recovery_restores_pool(pool: PoolView, position: int)
    requires
        0 <= position < pool.health.len(),
        pool.health[position],
    ensures
        pool.with_health(position, false).with_health(position, true) == pool,
        healthy_positions(pool.with_health(position, false).with_health(position, true).health)
            == healthy_positions(pool.health),
{
    assert(pool.health.update(position, false).update(position, true) == pool.health);
}

/// Marking a backend twice the same way is marking it once.
pub proof fn lemma_set_health_idempotent(pool: PoolView, position: int, healthy: bool)
    ensures
        pool.with_health(position, healthy).with_health(position, healthy) == pool.with_health(
            position,
            healthy,
        ),
{
    if 0 <= position < pool.health.len() {
        assert(pool.health.update(position, healthy).update(position, healthy)
            == pool.health.update(position, healthy));
    }
}

} // verus!
