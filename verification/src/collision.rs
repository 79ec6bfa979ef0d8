//! What happens to a pool of bullets: flight, hits, and removal.
//!
//! A bullet hits only the side that did not fire it. A hit flags the bullet
//! and costs the target one hit point; flagged bullets stay in the pool until
//! it is pruned.

use vstd::prelude::*;
use crate::app::Bullet;
use crate::vecmath::within;

verus! {

/// Whether `b` was fired by the given side and lies within `radius` of
/// `(x, y)`.
pub open spec fn struck(b: Bullet, from_player: bool, x: i64, y: i64, radius: i64) -> bool {
    b.is_player == from_player && within(b.pos_x, b.pos_y, x, y, radius)
}

/// The test [`struck`] for a fixed target.
pub open spec fn strikes(from_player: bool, x: i64, y: i64, radius: i64) -> spec_fn(Bullet) -> bool {
    |b: Bullet| struck(b, from_player, x, y, radius)
}

/// `b`, flagged for removal where it strikes the target.
pub open spec fn flag_if_struck(from_player: bool, x: i64, y: i64, radius: i64) -> spec_fn(
    Bullet,
) -> Bullet {
    |b: Bullet|
        if struck(b, from_player, x, y, radius) {
            Bullet { will_remove: true, ..b }
        } else {
            b
        }
}

/// The pool after the target at `(x, y)` has taken its hits: every bullet
/// that strikes it is flagged, nothing else changes.
pub open spec fn flag_struck(
    bullets: Seq<Bullet>,
    from_player: bool,
    x: i64,
    y: i64,
    radius: i64,
) -> Seq<Bullet> {
    bullets.map_values(flag_if_struck(from_player, x, y, radius))
}

/// How many bullets of the pool strike the target at `(x, y)`.
pub open spec fn count_struck(
    bullets: Seq<Bullet>,
    from_player: bool,
    x: i64,
    y: i64,
    radius: i64,
) -> nat {
    bullets.filter(strikes(from_player, x, y, radius)).len()
}

/// Hit points after `hits` hits: one less for each. They may go below
/// zero, and stop only at the least number that the machine can hold.
pub open spec fn drained(hp: isize, hits: nat) -> isize {
    if hp - hits < isize::MIN {
        isize::MIN
    } else {
        (hp - hits) as isize
    }
}

/// The test for bullets that are not flagged for removal.
pub open spec fn unflagged() -> spec_fn(Bullet) -> bool {
    |b: Bullet| !b.will_remove
}

/// The test for bullets that the player fired.
pub open spec fn players_own() -> spec_fn(Bullet) -> bool {
    |b: Bullet| b.is_player
}

/// The bullets that stay when the pool is pruned, in their order.
pub open spec fn live(bullets: Seq<Bullet>) -> Seq<Bullet> {
    bullets.filter(unflagged())
}

/// The player's bullets of the pool, in their order.
pub open spec fn of_player(bullets: Seq<Bullet>) -> Seq<Bullet> {
    bullets.filter(players_own())
}

/// Every bullet of the pool after flying for `delta` nanoseconds.
pub open spec fn advanced(bullets: Seq<Bullet>, delta: u64) -> Seq<Bullet> {
    bullets.map_values(|b: Bullet| b.spec_advanced(delta))
}

/// Moves every bullet of the pool along its velocity for `delta`
/// nanoseconds.
pub fn advance_all(bullets: &mut Vec<Bullet>, delta: u64)
    ensures
        final(bullets)@ == advanced(old(bullets)@, delta),
{
    let n = bullets.len();
    let mut i: usize = 0;
    while i < n
        invariant
            i <= n,
            bullets.len() == n,
            old(bullets).len() == n,
            forall|j: int| 0 <= j < i ==> bullets[j] == old(bullets)[j].spec_advanced(delta),
            forall|j: int| i <= j < n ==> bullets[j] == old(bullets)[j],
        decreases n - i,
    {
        bullets[i].advance(delta);
        i += 1;
    }
    assert(bullets@ =~= advanced(old(bullets)@, delta));
}

/// Lets the target at `(x, y)` take its hits from the pool. Each bullet
/// that strikes it is flagged and costs one of the `hp` hit points; the
/// hit points that are left are returned. A bullet that is flagged already
/// hits all the same.
pub fn sweep(
    bullets: &mut Vec<Bullet>,
    from_player: bool,
    x: i64,
    y: i64,
    radius: i64,
    hp: isize,
) -> (left: isize)
    ensures
        final(bullets)@ == flag_struck(old(bullets)@, from_player, x, y, radius),
        left == drained(hp, count_struck(old(bullets)@, from_player, x, y, radius)),
{
    let n = bullets.len();
    let mut left = hp;
    let mut i: usize = 0;
    assert(old(bullets)@.take(0) =~= Seq::<Bullet>::empty());
    proof {
        reveal(Seq::filter);
    }
    while i < n
        invariant
            i <= n,
            bullets.len() == n,
            old(bullets).len() == n,
            forall|j: int|
                0 <= j < i ==> bullets[j] == flag_if_struck(from_player, x, y, radius)(
                    old(bullets)[j],
                ),
            forall|j: int| i <= j < n ==> bullets[j] == old(bullets)[j],
            left == drained(
                hp,
                count_struck(old(bullets)@.take(i as int), from_player, x, y, radius),
            ),
        decreases n - i,
    {
        let b = bullets[i];
        proof {
            let seen = old(bullets)@.take(i as int);
            assert(old(bullets)@.take(i + 1) =~= seen.push(b));
            seen.lemma_filter_push(b, strikes(from_player, x, y, radius));
        }
        if b.is_player == from_player && within(b.pos_x, b.pos_y, x, y, radius) {
            bullets[i].will_remove = true;
            if left > isize::MIN {
                left = left - 1;
            }
        }
        i += 1;
    }
    assert(old(bullets)@.take(n as int) =~= old(bullets)@);
    assert(bullets@ =~= flag_struck(old(bullets)@, from_player, x, y, radius));
    left
}

/// Keeps the bullets that pass a test, in their order: where `player_only`
/// is set, the test is that the player fired the bullet; where it is not,
/// that the bullet is not flagged.
fn retain(bullets: &mut Vec<Bullet>, player_only: bool)
    ensures
        final(bullets)@ == if player_only {
            of_player(old(bullets)@)
        } else {
            live(old(bullets)@)
        },
{
    let ghost test = if player_only { players_own() } else { unflagged() };
    let n = bullets.len();
    let mut kept: Vec<Bullet> = Vec::new();
    let mut i: usize = 0;
    assert(bullets@.take(0) =~= Seq::<Bullet>::empty());
    proof {
        reveal(Seq::filter);
    }
    while i < n
        invariant
            i <= n,
            bullets.len() == n,
            bullets@ == old(bullets)@,
            test == if player_only { players_own() } else { unflagged() },
            kept@ == bullets@.take(i as int).filter(test),
        decreases n - i,
    {
        let b = bullets[i];
        proof {
            let seen = bullets@.take(i as int);
            assert(bullets@.take(i + 1) =~= seen.push(b));
            seen.lemma_filter_push(b, test);
        }
        let keep = if player_only { b.is_player } else { !b.will_remove };
        if keep {
            kept.push(b);
        }
        i += 1;
    }
    assert(bullets@.take(n as int) =~= bullets@);
    *bullets = kept;
}

/// Removes every bullet that is flagged for removal; the others keep
/// their order.
pub fn prune(bullets: &mut Vec<Bullet>)
    ensures
        final(bullets)@ == live(old(bullets)@),
{
    retain(bullets, false);
}

/// Removes every bullet that the player did not fire; the others keep
/// their order.
pub fn keep_players_own(bullets: &mut Vec<Bullet>)
    ensures
        final(bullets)@ == of_player(old(bullets)@),
{
    retain(bullets, true);
}

/// Whether the player fired every bullet of the pool.
pub open spec fn all_players_own(bullets: Seq<Bullet>) -> bool {
    forall|i: int| 0 <= i < bullets.len() ==> (#[trigger] bullets[i]).is_player
}

/// Whether no bullet of the pool is flagged for removal.
pub open spec fn none_flagged(bullets: Seq<Bullet>) -> bool {
    forall|i: int| 0 <= i < bullets.len() ==> !(#[trigger] bullets[i]).will_remove
}

/// Pruning leaves no flagged bullet behind, and brings in none that was not
/// there.
pub proof fn lemma_live_is_clean(bullets: Seq<Bullet>)
    ensures
        none_flagged(live(bullets)),
        live(bullets).len() <= bullets.len(),
        forall|i: int| 0 <= i < live(bullets).len() ==> bullets.contains(#[trigger] live(bullets)[i]),
        all_players_own(bullets) ==> all_players_own(live(bullets)),
{
    let kept = live(bullets);
    bullets.lemma_filter_len(unflagged());
    assert forall|i: int| 0 <= i < kept.len() implies !(#[trigger] kept[i]).will_remove
        && bullets.contains(kept[i]) by {
        bullets.lemma_filter_pred(unflagged(), i);
        assert(kept.contains(kept[i]));
        bullets.lemma_filter_contains_rev(unflagged(), kept[i]);
    }
    if all_players_own(bullets) {
        assert forall|i: int| 0 <= i < kept.len() implies (#[trigger] kept[i]).is_player by {
            assert(bullets.contains(kept[i]));
            let j = choose|j: int| 0 <= j < bullets.len() && bullets[j] == kept[i];
            assert(bullets[j].is_player);
        }
    }
}

/// What is left after the enemy's bullets are taken out is the player's.
pub proof fn lemma_of_player_is_players(bullets: Seq<Bullet>)
    ensures
        all_players_own(of_player(bullets)),
        none_flagged(bullets) ==> none_flagged(of_player(bullets)),
{
    let kept = of_player(bullets);
    assert forall|i: int| 0 <= i < kept.len() implies (#[trigger] kept[i]).is_player by {
        bullets.lemma_filter_pred(players_own(), i);
    }
    if none_flagged(bullets) {
        assert forall|i: int| 0 <= i < kept.len() implies !(#[trigger] kept[i]).will_remove by {
            assert(kept.contains(kept[i]));
            bullets.lemma_filter_contains_rev(players_own(), kept[i]);
            let j = choose|j: int| 0 <= j < bullets.len() && bullets[j] == kept[i];
            assert(!bullets[j].will_remove);
        }
    }
}

/// Taking hits flags exactly the bullets that strike, keeps every flag that
/// was set before, and changes nothing else about any bullet.
pub proof fn lemma_flag_struck_marks_hits(
    bullets: Seq<Bullet>,
    from_player: bool,
    x: i64,
    y: i64,
    radius: i64,
)
    ensures
        flag_struck(bullets, from_player, x, y, radius).len() == bullets.len(),
        forall|i: int|
            #![trigger flag_struck(bullets, from_player, x, y, radius)[i]]
            0 <= i < bullets.len() ==> ({
                let before = bullets[i];
                let after = flag_struck(bullets, from_player, x, y, radius)[i];
                &&& after.will_remove == (before.will_remove || struck(
                    before,
                    from_player,
                    x,
                    y,
                    radius,
                ))
                &&& after == Bullet { will_remove: after.will_remove, ..before }
            }),
        all_players_own(bullets) ==> all_players_own(
            flag_struck(bullets, from_player, x, y, radius),
        ),
{
}

/// Flight moves bullets and changes nothing else about them.
pub proof fn lemma_advanced_keeps_tags(bullets: Seq<Bullet>, delta: u64)
    ensures
        advanced(bullets, delta).len() == bullets.len(),
        forall|i: int|
            #![trigger advanced(bullets, delta)[i]]
            0 <= i < bullets.len() ==> ({
                &&& advanced(bullets, delta)[i] == bullets[i].spec_advanced(delta)
                &&& advanced(bullets, delta)[i].is_player == bullets[i].is_player
                &&& advanced(bullets, delta)[i].will_remove == bullets[i].will_remove
            }),
        all_players_own(bullets) ==> all_players_own(advanced(bullets, delta)),
{
}

/// Each hit costs exactly one hit point, as long as the hit points stay
/// within what the machine can hold.
pub proof fn lemma_drained_is_exact(hp: isize, hits: nat)
    requires
        hp - hits >= isize::MIN,
    ensures
        drained(hp, hits) == hp - hits,
{
}

/// Whether the enemy fired every bullet of the pool.
pub open spec fn none_players_own(bullets: Seq<Bullet>) -> bool {
    forall|i: int| 0 <= i < bullets.len() ==> !(#[trigger] bullets[i]).is_player
}

/// Two pools that agree, bullet by bullet, on who fired hold as many of
/// the player's bullets.
pub proof fn lemma_same_owners_same_count(before: Seq<Bullet>, after: Seq<Bullet>)
    requires
        before.len() == after.len(),
        forall|i: int|
            0 <= i < before.len() ==> (#[trigger] after[i]).is_player == before[i].is_player,
    ensures
        of_player(after).len() == of_player(before).len(),
    decreases before.len(),
{
    reveal(Seq::filter);
    if before.len() > 0 {
        lemma_same_owners_same_count(before.drop_last(), after.drop_last());
        assert(after.last().is_player == before.last().is_player);
    }
}

/// A pool of the enemy's bullets holds none of the player's.
pub proof fn lemma_enemys_pool_has_no_players(bullets: Seq<Bullet>)
    requires
        none_players_own(bullets),
    ensures
        of_player(bullets).len() == 0,
    decreases bullets.len(),
{
    reveal(Seq::filter);
    if bullets.len() > 0 {
        lemma_enemys_pool_has_no_players(bullets.drop_last());
        assert(!bullets.last().is_player);
    }
}

/// Pruning never adds to the player's bullets in the pool.
pub proof fn lemma_pruning_adds_no_players(bullets: Seq<Bullet>)
    ensures
        of_player(live(bullets)).len() <= of_player(bullets).len(),
    decreases bullets.len(),
{
    reveal(Seq::filter);
    if bullets.len() > 0 {
        lemma_pruning_adds_no_players(bullets.drop_last());
        let rest = live(bullets.drop_last());
        if !bullets.last().will_remove {
            rest.lemma_filter_push(bullets.last(), players_own());
        }
    }
}

/// An unflagged bullet of the pool outlives the pruning, and a player's
/// bullet outlives the removal of the enemy's.
pub proof fn lemma_kept_bullets(bullets: Seq<Bullet>, i: int)
    requires
        0 <= i < bullets.len(),
    ensures
        !bullets[i].will_remove ==> live(bullets).contains(bullets[i]),
        bullets[i].is_player ==> of_player(bullets).contains(bullets[i]),
{
    if !bullets[i].will_remove {
        bullets.lemma_filter_contains(unflagged(), i);
    }
    if bullets[i].is_player {
        bullets.lemma_filter_contains(players_own(), i);
    }
}

} // verus!
