//! The second enemy: a three-way spread every two seconds.

use vstd::prelude::*;
use crate::app::{Bullet, Player};
use crate::battle::{
    aim, later, total, Body, EnemyAction, ENEMY_BULLET_OFFSET, HIT_RADIUS, START_HP, START_POS,
    VOLLEY_PERIOD,
};
use crate::battle::{at_speed, in_sight, lemma_aimed_bullet, turned_from};
use crate::collision::sweep;
use crate::vecmath::{lemma_rotate_keeps_length, turnable};

verus! {

/// The angle between the middle bullet of a spread and each of the other
/// two, in degrees.
pub const SPREAD_DEG: i32 = 30;

/// The enemy of stage 1.
#[derive(Debug)]
pub struct EnemyLevel1 {
    pos_x: i64,
    pos_y: i64,
    hp: isize,
    timer: u64,
    bullets: Vec<Bullet>,
}

/// The spread around the aimed bullet `b`: `b` itself, then `b` turned by
/// [`SPREAD_DEG`] to the left, then by as much to the right. All three
/// start where `b` starts.
pub open spec fn spread(b: Bullet) -> Seq<Bullet> {
    seq![b, b.spec_rotated(SPREAD_DEG), b.spec_rotated((-SPREAD_DEG) as i32)]
}

/// One tick of the second enemy's schedule, with the player at `(px, py)`.
///
/// Time passes first. An enemy without hit points then reports its death
/// and does nothing more. A living one fires a spread of three once more
/// than [`VOLLEY_PERIOD`] has passed since its last attack, and starts
/// counting again.
pub open spec fn spec_tick(e: Body, delta: u64, px: i64, py: i64) -> (Body, EnemyAction) {
    let aged = e.aged(delta);
    if e.hp <= 0 {
        (aged, EnemyAction::Die)
    } else if aged.timer > VOLLEY_PERIOD {
        (e.fired(spread(e.aim_at(px, py, ENEMY_BULLET_OFFSET))), EnemyAction::Idle)
    } else {
        (aged, EnemyAction::Idle)
    }
}

impl View for EnemyLevel1 {
    type V = Body;

    closed spec fn view(&self) -> Body {
        Body {
            pos_x: self.pos_x,
            pos_y: self.pos_y,
            hp: self.hp,
            timer: self.timer,
            pending: self.bullets@,
        }
    }
}

impl EnemyLevel1 {
    /// The enemy as it enters the stage.
    pub fn new() -> (e: Self)
        ensures
            e@ == Body::fresh(),
    {
        Self { pos_x: START_POS, pos_y: START_POS, hp: START_HP, timer: 0, bullets: Vec::new() }
    }

    /// Makes the spread of three around the bullet aimed at the player.
    /// All three start where the aimed bullet starts and fly as fast as it
    /// does, up to rounding.
    pub fn new_bullets(&self, player: &Player) -> (volley: Vec<Bullet>)
        ensures
            volley@ == spread(self@.aim_at(player.pos_x, player.pos_y, ENEMY_BULLET_OFFSET)),
            volley@.len() == 3,
            in_sight(self@, player.pos_x, player.pos_y) ==> at_speed(volley@[0]),
            turned_from(volley@[0], volley@[1]),
            turned_from(volley@[0], volley@[2]),
            !volley@[0].is_player,
            !volley@[0].will_remove,
    {
        proof {
            lemma_aimed_bullet(self@, player.pos_x, player.pos_y, ENEMY_BULLET_OFFSET);
        }
        let b0 = aim(self.pos_x, self.pos_y, player, ENEMY_BULLET_OFFSET);
        let b1 = b0.rotated(SPREAD_DEG);
        let b2 = b0.rotated(-SPREAD_DEG);
        let mut volley: Vec<Bullet> = Vec::new();
        volley.push(b0);
        volley.push(b1);
        volley.push(b2);
        assert(volley@ =~= spread(b0));
        volley
    }

    /// Lets `delta` nanoseconds pass for the enemy.
    pub fn tick(&mut self, delta: u64, player: &Player) -> (action: EnemyAction)
        ensures
            (final(self)@, action) == spec_tick(old(self)@, delta, player.pos_x, player.pos_y),
            action is Die <==> old(self)@.hp <= 0,
    {
        self.timer = later(self.timer, delta);
        if self.hp <= 0 {
            return EnemyAction::Die;
        }
        if self.timer > VOLLEY_PERIOD {
            self.timer = 0;
            let mut volley = self.new_bullets(player);
            self.bullets.append(&mut volley);
        }
        EnemyAction::Idle
    }

    /// Hands over the bullets fired since the last call, oldest first, and
    /// empties the buffer.
    pub fn bullets(&mut self) -> (out: Vec<Bullet>)
        ensures
            out@ == old(self)@.pending,
            final(self)@ == old(self)@.emptied(),
    {
        let mut out: Vec<Bullet> = Vec::new();
        out.append(&mut self.bullets);
        assert(out@ =~= old(self).bullets@);
        out
    }

    /// Takes the hits from the pool: each of the player's bullets within
    /// [`HIT_RADIUS`] is flagged for removal and costs one hit point.
    pub fn hurt(&mut self, bullets: &mut Vec<Bullet>)
        ensures
            final(bullets)@ == old(self)@.flag(old(bullets)@),
            final(self)@ == old(self)@.hurt(old(bullets)@),
    {
        self.hp = sweep(bullets, true, self.pos_x, self.pos_y, HIT_RADIUS, self.hp);
    }

    /// The hit points that are left.
    pub fn hp(&self) -> (hp: isize)
        ensures
            hp == self@.hp,
    {
        self.hp
    }

    /// Where the enemy stands.
    pub fn pos(&self) -> (pos: (i64, i64))
        ensures
            pos == (self@.pos_x, self@.pos_y),
    {
        (self.pos_x, self.pos_y)
    }

    /// The nanoseconds counted since the last attack.
    pub fn timer(&self) -> (timer: u64)
        ensures
            timer == self@.timer,
    {
        self.timer
    }
}

/// The second enemy's cadence. While it lives it never reports its death. A
/// tick that brings its timer past [`VOLLEY_PERIOD`] makes it fire exactly
/// three bullets and start counting again from zero: the bullet aimed at
/// the player, then the same turned by thirty degrees to the left, then by
/// thirty to the right. Any other tick fires nothing and lets the timer
/// run on.
pub proof fn lemma_three_bullets_per_period(e: Body, delta: u64, px: i64, py: i64)
    requires
        e.hp > 0,
    ensures
        spec_tick(e, delta, px, py).1 == EnemyAction::Idle,
        later(e.timer, delta) > VOLLEY_PERIOD ==> ({
            let after = spec_tick(e, delta, px, py).0;
            let aimed = e.aim_at(px, py, ENEMY_BULLET_OFFSET);
            let n = e.pending.len() as int;
            &&& after.timer == 0
            &&& after.pending.len() == n + 3
            &&& after.pending.take(n) == e.pending
            &&& after.pending[n] == aimed
            &&& after.pending[n + 1] == aimed.spec_rotated(30)
            &&& after.pending[n + 2] == aimed.spec_rotated(-30i32)
        }),
        later(e.timer, delta) <= VOLLEY_PERIOD ==> ({
            let after = spec_tick(e, delta, px, py).0;
            &&& after.timer == later(e.timer, delta)
            &&& after.pending == e.pending
        }),
{
    let aimed = e.aim_at(px, py, ENEMY_BULLET_OFFSET);
    let grown = e.pending + spread(aimed);
    assert(grown.take(e.pending.len() as int) =~= e.pending);
}

/// The enemy after a run of ticks, with the player at `(px, py)` all the
/// while.
pub open spec fn run(e: Body, deltas: Seq<u64>, px: i64, py: i64) -> Body
    decreases deltas.len(),
{
    if deltas.len() == 0 {
        e
    } else {
        spec_tick(run(e, deltas.drop_last(), px, py), deltas.last(), px, py).0
    }
}

/// The timer adds up the ticks. As long as the time since the last attack
/// has not passed [`VOLLEY_PERIOD`], a living enemy fires nothing, however
/// the time is cut into ticks; the tick that brings it past fires
/// a spread of three and starts the timer again from zero.
pub proof fn lemma_fires_when_the_period_has_passed(
    e: Body,
    deltas: Seq<u64>,
    last: u64,
    px: i64,
    py: i64,
)
    requires
        e.hp > 0,
        e.timer + total(deltas) <= VOLLEY_PERIOD,
    ensures
        run(e, deltas, px, py) == (Body { timer: (e.timer + total(deltas)) as u64, ..e }),
        e.timer + total(deltas) + last > VOLLEY_PERIOD ==> ({
            let after = run(e, deltas, px, py);
            spec_tick(after, last, px, py).0 == after.fired(spread(after.aim_at(px, py, ENEMY_BULLET_OFFSET)))
        }),
    decreases deltas.len(),
{
    if deltas.len() > 0 {
        lemma_fires_when_the_period_has_passed(e, deltas.drop_last(), deltas.last(), px, py);
    }
}

/// The shape of a spread: the aimed bullet, then the same turned by thirty
/// degrees to the left, then by thirty to the right. The two at the sides
/// start where the aimed one starts and fly as fast, up to rounding.
pub proof fn lemma_spread_shape(b: Bullet)
    requires
        turnable(b.velocity_x, b.velocity_y),
    ensures
        spread(b).len() == 3,
        spread(b)[0] == b,
        spread(b)[1] == b.spec_rotated(30),
        spread(b)[2] == b.spec_rotated(-30i32),
        turned_from(b, spread(b)[1]),
        turned_from(b, spread(b)[2]),
{
    lemma_rotate_keeps_length(b.velocity_x, b.velocity_y, 30);
    lemma_rotate_keeps_length(b.velocity_x, b.velocity_y, -30i32);
}

/// The volley of the second enemy at a player in sight: three bullets of
/// the enemy's that start [`ENEMY_BULLET_OFFSET`] from it toward the player.
/// The first flies at the speed of an enemy bullet, the others as fast as
/// the first, all up to rounding.
pub proof fn lemma_volley_speed(e: Body, px: i64, py: i64)
    requires
        in_sight(e, px, py),
    ensures
        ({
            let volley = spread(e.aim_at(px, py, ENEMY_BULLET_OFFSET));
            &&& at_speed(volley[0])
            &&& turned_from(volley[0], volley[1])
            &&& turned_from(volley[0], volley[2])
            &&& !volley[0].is_player
        }),
{
    lemma_aimed_bullet(e, px, py, ENEMY_BULLET_OFFSET);
    lemma_spread_shape(e.aim_at(px, py, ENEMY_BULLET_OFFSET));
}

} // verus!
