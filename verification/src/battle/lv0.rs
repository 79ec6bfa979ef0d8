//! The first enemy: one aimed bullet every two seconds.

use vstd::prelude::*;
use crate::app::{Bullet, Player};
use crate::battle::{
    aim, later, total, Body, EnemyAction, ENEMY_BULLET_OFFSET, HIT_RADIUS, START_HP, START_POS,
    VOLLEY_PERIOD,
};
use crate::battle::{at_speed, in_sight, lemma_aimed_bullet};
use crate::collision::sweep;

verus! {

/// The enemy of stage 0.
#[derive(Debug)]
pub struct EnemyLevel0 {
    pos_x: i64,
    pos_y: i64,
    hp: isize,
    timer: u64,
    bullets: Vec<Bullet>,
}

/// One tick of the first enemy's schedule, with the player at `(px, py)`.
///
/// Time passes first. An enemy without hit points then reports its death
/// and does nothing more. A living one fires a single aimed bullet once
/// more than [`VOLLEY_PERIOD`] has passed since its last attack, and starts
/// counting again.
pub open spec fn spec_tick(e: Body, delta: u64, px: i64, py: i64) -> (Body, EnemyAction) {
    let aged = e.aged(delta);
    if e.hp <= 0 {
        (aged, EnemyAction::Die)
    } else if aged.timer > VOLLEY_PERIOD {
        (e.fired(seq![e.aim_at(px, py, ENEMY_BULLET_OFFSET)]), EnemyAction::Idle)
    } else {
        (aged, EnemyAction::Idle)
    }
}

impl View for EnemyLevel0 {
    type V = Body;

    closed spec fn view(&self) -> Body {
        Body {
            pos_x: self.pos_x,
            pos_y: self.pos_y,
            hp: self.hp,
            timer: self.timer,
            pending: self.bullets@,
        }
    }
}

impl EnemyLevel0 {
    /// The enemy as it enters the stage.
    pub fn new() -> (e: Self)
        ensures
            e@ == Body::fresh(),
    {
        Self { pos_x: START_POS, pos_y: START_POS, hp: START_HP, timer: 0, bullets: Vec::new() }
    }

    /// Makes the bullet aimed at the player: it starts
    /// [`ENEMY_BULLET_OFFSET`] from the enemy toward the player, and flies
    /// that way at the speed of an enemy bullet.
    pub fn new_bullet(&self, player: &Player) -> (b: Bullet)
        ensures
            b == self@.aim_at(player.pos_x, player.pos_y, ENEMY_BULLET_OFFSET),
            in_sight(self@, player.pos_x, player.pos_y) ==> at_speed(b),
            !b.is_player,
            !b.will_remove,
    {
        proof {
            lemma_aimed_bullet(self@, player.pos_x, player.pos_y, ENEMY_BULLET_OFFSET);
        }
        aim(self.pos_x, self.pos_y, player, ENEMY_BULLET_OFFSET)
    }

    /// Lets `delta` nanoseconds pass for the enemy.
    pub fn tick(&mut self, delta: u64, player: &Player) -> (action: EnemyAction)
        ensures
            (final(self)@, action) == spec_tick(old(self)@, delta, player.pos_x, player.pos_y),
            action is Die <==> old(self)@.hp <= 0,
    {
        self.timer = later(self.timer, delta);
        if self.hp <= 0 {
            return EnemyAction::Die;
        }
        if self.timer > VOLLEY_PERIOD {
            self.timer = 0;
            let b = self.new_bullet(player);
            self.bullets.push(b);
            assert(self.bullets@ =~= old(self).bullets@ + seq![b]);
        }
        EnemyAction::Idle
    }

    /// Hands over the bullets fired since the last call, oldest first, and
    /// empties the buffer.
    pub fn bullets(&mut self) -> (out: Vec<Bullet>)
        ensures
            out@ == old(self)@.pending,
            final(self)@ == old(self)@.emptied(),
    {
        let mut out: Vec<Bullet> = Vec::new();
        out.append(&mut self.bullets);
        assert(out@ =~= old(self).bullets@);
        out
    }

    /// Takes the hits from the pool: each of the player's bullets within
    /// [`HIT_RADIUS`] is flagged for removal and costs one hit point.
    pub fn hurt(&mut self, bullets: &mut Vec<Bullet>)
        ensures
            final(bullets)@ == old(self)@.flag(old(bullets)@),
            final(self)@ == old(self)@.hurt(old(bullets)@),
    {
        self.hp = sweep(bullets, true, self.pos_x, self.pos_y, HIT_RADIUS, self.hp);
    }

    /// The hit points that are left.
    pub fn hp(&self) -> (hp: isize)
        ensures
            hp == self@.hp,
    {
        self.hp
    }

    /// Where the enemy stands.
    pub fn pos(&self) -> (pos: (i64, i64))
        ensures
            pos == (self@.pos_x, self@.pos_y),
    {
        (self.pos_x, self.pos_y)
    }

    /// The nanoseconds counted since the last attack.
    pub fn timer(&self) -> (timer: u64)
        ensures
            timer == self@.timer,
    {
        self.timer
    }
}

/// The first enemy's cadence. While it lives it never reports its death. A
/// tick that brings its timer past [`VOLLEY_PERIOD`] makes it fire exactly
/// one bullet, aimed at the player, and start counting again from zero. Any
/// other tick fires nothing and lets the timer run on.
pub proof fn lemma_one_bullet_per_period(e: Body, delta: u64, px: i64, py: i64)
    requires
        e.hp > 0,
    ensures
        spec_tick(e, delta, px, py).1 == EnemyAction::Idle,
        later(e.timer, delta) > VOLLEY_PERIOD ==> ({
            let after = spec_tick(e, delta, px, py).0;
            &&& after.timer == 0
            &&& after.pending.len() == e.pending.len() + 1
            &&& after.pending == e.pending.push(e.aim_at(px, py, ENEMY_BULLET_OFFSET))
        }),
        later(e.timer, delta) <= VOLLEY_PERIOD ==> ({
            let after = spec_tick(e, delta, px, py).0;
            &&& after.timer == later(e.timer, delta)
            &&& after.pending == e.pending
        }),
{
    let b = e.aim_at(px, py, ENEMY_BULLET_OFFSET);
    assert(e.pending + seq![b] =~= e.pending.push(b));
}

/// The enemy after a run of ticks, with the player at `(px, py)` all the
/// while.
pub open spec fn run(e: Body, deltas: Seq<u64>, px: i64, py: i64) -> Body
    decreases deltas.len(),
{
    if deltas.len() == 0 {
        e
    } else {
        spec_tick(run(e, deltas.drop_last(), px, py), deltas.last(), px, py).0
    }
}

/// The timer adds up the ticks. As long as the time since the last attack
/// has not passed [`VOLLEY_PERIOD`], a living enemy fires nothing, however
/// the time is cut into ticks; the tick that brings it past fires
/// one bullet and starts the timer again from zero.
pub proof fn lemma_fires_when_the_period_has_passed(
    e: Body,
    deltas: Seq<u64>,
    last: u64,
    px: i64,
    py: i64,
)
    requires
        e.hp > 0,
        e.timer + total(deltas) <= VOLLEY_PERIOD,
    ensures
        run(e, deltas, px, py) == (Body { timer: (e.timer + total(deltas)) as u64, ..e }),
        e.timer + total(deltas) + last > VOLLEY_PERIOD ==> ({
            let after = run(e, deltas, px, py);
            spec_tick(after, last, px, py).0 == after.fired(seq![after.aim_at(px, py, ENEMY_BULLET_OFFSET)])
        }),
    decreases deltas.len(),
{
    if deltas.len() > 0 {
        lemma_fires_when_the_period_has_passed(e, deltas.drop_last(), deltas.last(), px, py);
    }
}

} // verus!
