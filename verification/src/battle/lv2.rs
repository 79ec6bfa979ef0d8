//! The third enemy: after two seconds of rest, three rings of twelve
//! bullets, each ring turned a little against the one before.

use vstd::prelude::*;
use crate::app::{Bullet, Player};
use crate::battle::{
    aim, later, Body, EnemyAction, HIT_RADIUS, START_HP, START_POS, VOLLEY_PERIOD,
};
use crate::battle::{at_speed, in_sight, lemma_aimed_bullet, turned_from};
use crate::collision::sweep;
use crate::vecmath::{lemma_rotate_keeps_length, turnable};

verus! {

/// The bullets in one ring.
pub const RING_SIZE: usize = 12;

/// The angle between neighbours in a ring, in degrees: a full turn shared
/// out evenly.
pub const RING_STEP_DEG: i32 = 30;

/// By how much each ring of a burst is turned against the one before, in
/// degrees.
pub const STAGGER_DEG: i32 = 5;

/// The rings in one burst.
pub const RINGS: usize = 3;

/// The pause before each ring of a burst: eight tenths of a second.
pub const RING_PERIOD: u64 = 800_000_000;

/// Where the third enemy is in its schedule.
#[derive(Debug, Clone, Copy, PartialEq, Eq, Structural)]
pub enum State {
    /// Resting between bursts.
    Idle,
    /// In a burst, with this many rings fired.
    Shooting(usize),
}

/// The enemy of stage 2.
#[derive(Debug)]
pub struct EnemyLevel2 {
    pos_x: i64,
    pos_y: i64,
    hp: isize,
    timer: u64,
    bullets: Vec<Bullet>,
    state: State,
}

/// What an [`EnemyLevel2`] stands for.
pub struct Level2Model {
    pub body: Body,
    pub state: State,
}

/// The angle of the `k`-th bullet of a ring whose first bullet is turned by
/// `extra` degrees.
pub open spec fn ring_angle(extra: i32, k: int) -> i32 {
    (extra + RING_STEP_DEG * k) as i32
}

/// The ring around `base`: [`RING_SIZE`] copies of it, the `k`-th turned by
/// `extra + k * RING_STEP_DEG` degrees. All of them start where `base`
/// starts.
pub open spec fn ring(base: Bullet, extra: i32) -> Seq<Bullet> {
    Seq::new(RING_SIZE as nat, |k: int| base.spec_rotated(ring_angle(extra, k)))
}

/// By how many degrees the ring after `fired` rings of a burst is turned.
pub open spec fn stagger(fired: usize) -> i32 {
    (STAGGER_DEG * fired) as i32
}

/// One tick of the third enemy's schedule, with the player at `(px, py)`.
///
/// Time passes first. An enemy without hit points then reports its death
/// and does nothing more. A living one, when resting, starts a burst once
/// more than [`VOLLEY_PERIOD`] has passed. In a burst with fewer than
/// [`RINGS`] rings fired, it fires the next ring once more than
/// [`RING_PERIOD`] has passed: a ring around the bullet aimed at the player
/// from the enemy's own position, turned by [`stagger`]. With all rings
/// fired it goes back to rest, without firing and without touching the
/// timer.
pub open spec fn spec_tick(e: Level2Model, delta: u64, px: i64, py: i64) -> (
    Level2Model,
    EnemyAction,
) {
    let aged = e.body.aged(delta);
    if e.body.hp <= 0 {
        (Level2Model { body: aged, state: e.state }, EnemyAction::Die)
    } else {
        let next = match e.state {
            State::Idle => if aged.timer > VOLLEY_PERIOD {
                Level2Model { body: e.body.restarted(), state: State::Shooting(0) }
            } else {
                Level2Model { body: aged, state: State::Idle }
            },
            State::Shooting(i) => if i < RINGS {
                if aged.timer > RING_PERIOD {
                    Level2Model {
                        body: e.body.fired(ring(e.body.aim_at(px, py, 0), stagger(i))),
                        state: State::Shooting((i + 1) as usize),
                    }
                } else {
                    Level2Model { body: aged, state: State::Shooting(i) }
                }
            } else {
                Level2Model { body: aged, state: State::Idle }
            },
        };
        (next, EnemyAction::Idle)
    }
}

impl View for EnemyLevel2 {
    type V = Level2Model;

    closed spec fn view(&self) -> Level2Model {
        Level2Model {
            body: Body {
                pos_x: self.pos_x,
                pos_y: self.pos_y,
                hp: self.hp,
                timer: self.timer,
                pending: self.bullets@,
            },
            state: self.state,
        }
    }
}

impl EnemyLevel2 {
    /// The enemy as it enters the stage, at rest.
    pub fn new() -> (e: Self)
        ensures
            e@ == (Level2Model { body: Body::fresh(), state: State::Idle }),
    {
        Self {
            pos_x: START_POS,
            pos_y: START_POS,
            hp: START_HP,
            timer: 0,
            bullets: Vec::new(),
            state: State::Idle,
        }
    }

    /// Makes the ring around the bullet aimed at the player from the
    /// enemy's own position, the first bullet turned by `extra_degree`,
    /// which is no more than a burst asks for. Every bullet of the ring
    /// starts at the enemy and flies as fast as the aimed one, up to
    /// rounding.
    pub fn new_bullets(&self, player: &Player, extra_degree: i32) -> (volley: Vec<Bullet>)
        requires
            0 <= extra_degree <= STAGGER_DEG * RINGS,
        ensures
            volley@ == ring(self@.body.aim_at(player.pos_x, player.pos_y, 0), extra_degree),
            volley@.len() == RING_SIZE,
            in_sight(self@.body, player.pos_x, player.pos_y) ==> at_speed(
                self@.body.aim_at(player.pos_x, player.pos_y, 0),
            ),
            forall|k: int|
                0 <= k < RING_SIZE ==> turned_from(
                    self@.body.aim_at(player.pos_x, player.pos_y, 0),
                    #[trigger] volley@[k],
                ),
    {
        proof {
            lemma_aimed_bullet(self@.body, player.pos_x, player.pos_y, 0);
        }
        let b0 = aim(self.pos_x, self.pos_y, player, 0);
        let mut volley: Vec<Bullet> = Vec::new();
        let mut k: usize = 0;
        while k < RING_SIZE
            invariant
                k <= RING_SIZE,
                0 <= extra_degree <= STAGGER_DEG * RINGS,
                volley.len() == k,
                turnable(b0.velocity_x, b0.velocity_y),
                forall|j: int| 0 <= j < k ==> volley[j] == b0.spec_rotated(ring_angle(extra_degree, j)),
                forall|j: int| 0 <= j < k ==> turned_from(b0, #[trigger] volley[j]),
            decreases RING_SIZE - k,
        {
            let b = b0.rotated(extra_degree + RING_STEP_DEG * (k as i32));
            volley.push(b);
            k += 1;
        }
        assert(volley@ =~= ring(b0, extra_degree));
        volley
    }

    /// Lets `delta` nanoseconds pass for the enemy.
    pub fn tick(&mut self, delta: u64, player: &Player) -> (action: EnemyAction)
        ensures
            (final(self)@, action) == spec_tick(old(self)@, delta, player.pos_x, player.pos_y),
            action is Die <==> old(self)@.body.hp <= 0,
    {
        self.timer = later(self.timer, delta);
        if self.hp <= 0 {
            return EnemyAction::Die;
        }
        match self.state {
            State::Idle => {
                if self.timer > VOLLEY_PERIOD {
                    self.timer = 0;
                    self.state = State::Shooting(0);
                }
            },
            State::Shooting(i) => {
                if i < RINGS {
                    if self.timer > RING_PERIOD {
                        self.timer = 0;
                        self.state = State::Shooting(i + 1);
                        let mut volley = self.new_bullets(player, STAGGER_DEG * (i as i32));
                        self.bullets.append(&mut volley);
                    }
                } else {
                    self.state = State::Idle;
                }
            },
        }
        EnemyAction::Idle
    }

    /// Hands over the bullets fired since the last call, oldest first, and
    /// empties the buffer.
    pub fn bullets(&mut self) -> (out: Vec<Bullet>)
        ensures
            out@ == old(self)@.body.pending,
            final(self)@ == (Level2Model { body: old(self)@.body.emptied(), state: old(self)@.state }),
    {
        let mut out: Vec<Bullet> = Vec::new();
        out.append(&mut self.bullets);
        assert(out@ =~= old(self).bullets@);
        out
    }

    /// Takes the hits from the pool: each of the player's bullets within
    /// [`HIT_RADIUS`] is flagged for removal and costs one hit point.
    pub fn hurt(&mut self, bullets: &mut Vec<Bullet>)
        ensures
            final(bullets)@ == old(self)@.body.flag(old(bullets)@),
            final(self)@ == (Level2Model {
                body: old(self)@.body.hurt(old(bullets)@),
                state: old(self)@.state,
            }),
    {
        self.hp = sweep(bullets, true, self.pos_x, self.pos_y, HIT_RADIUS, self.hp);
    }

    /// The hit points that are left.
    pub fn hp(&self) -> (hp: isize)
        ensures
            hp == self@.body.hp,
    {
        self.hp
    }

    /// Where the enemy stands.
    pub fn pos(&self) -> (pos: (i64, i64))
        ensures
            pos == (self@.body.pos_x, self@.body.pos_y),
    {
        (self.pos_x, self.pos_y)
    }

    /// The nanoseconds counted since the last attack.
    pub fn timer(&self) -> (timer: u64)
        ensures
            timer == self@.body.timer,
    {
        self.timer
    }

    /// Where the enemy is in its schedule.
    pub fn state(&self) -> (state: State)
        ensures
            state == self@.state,
    {
        self.state
    }
}

/// The shape of a ring: twelve bullets, thirty degrees apart, the first
/// turned by `extra` degrees against `base`. They differ from `base` in
/// their velocity only.
pub proof fn lemma_ring_shape(base: Bullet, extra: i32)
    requires
        0 <= extra <= 30,
    ensures
        ring(base, extra).len() == 12,
        turnable(base.velocity_x, base.velocity_y) ==> forall|k: int|
            0 <= k < 12 ==> turned_from(base, #[trigger] ring(base, extra)[k]),
        forall|k: int|
            #![trigger ring(base, extra)[k]]
            0 <= k < 12 ==> ({
                let b = ring(base, extra)[k];
                &&& b == base.spec_rotated((extra + 30 * k) as i32)
                &&& b.pos_x == base.pos_x
                &&& b.pos_y == base.pos_y
                &&& b.is_player == base.is_player
                &&& b.will_remove == base.will_remove
            }),
{
    if turnable(base.velocity_x, base.velocity_y) {
        assert forall|k: int| 0 <= k < 12 implies turned_from(
            base,
            #[trigger] ring(base, extra)[k],
        ) by {
            lemma_rotate_keeps_length(base.velocity_x, base.velocity_y, ring_angle(extra, k));
        }
    }
}

/// The ring of the third enemy around a player in sight: the bullet that it
/// is made around flies at the speed of an enemy bullet, and every bullet of
/// the ring as fast as that one, all up to rounding.
pub proof fn lemma_ring_speed(e: Body, px: i64, py: i64, extra: i32)
    requires
        in_sight(e, px, py),
        0 <= extra <= 30,
    ensures
        at_speed(e.aim_at(px, py, 0)),
        forall|k: int|
            0 <= k < 12 ==> turned_from(
                e.aim_at(px, py, 0),
                #[trigger] ring(e.aim_at(px, py, 0), extra)[k],
            ),
{
    lemma_aimed_bullet(e, px, py, 0);
    lemma_ring_shape(e.aim_at(px, py, 0), extra);
}

/// The third enemy's burst. While it lives it never reports its death.
/// In a burst with `i` rings fired, `i` below three, a tick that brings the
/// timer past [`RING_PERIOD`] fires exactly one ring, turned by `5 * i`
/// degrees, around the bullet that is aimed at the player from the enemy's
/// own position, and starts the timer again. With three rings fired, the
/// next tick ends the burst without firing, whatever time has passed.
pub proof fn lemma_burst(e: Level2Model, delta: u64, px: i64, py: i64)
    requires
        e.body.hp > 0,
    ensures
        spec_tick(e, delta, px, py).1 == EnemyAction::Idle,
        e.state == State::Idle ==> ({
            let after = spec_tick(e, delta, px, py).0;
            &&& after.body.pending == e.body.pending
            &&& after.state == if later(e.body.timer, delta) > VOLLEY_PERIOD {
                State::Shooting(0)
            } else {
                State::Idle
            }
        }),
        forall|i: usize|
            i < 3 && e.state == State::Shooting(i) && later(e.body.timer, delta) > RING_PERIOD ==> ({
                let after = spec_tick(e, delta, px, py).0;
                let base = e.body.aim_at(px, py, 0);
                &&& after.state == State::Shooting((i + 1) as usize)
                &&& after.body.timer == 0
                &&& after.body.pending == e.body.pending + ring(base, (5 * i) as i32)
                &&& after.body.pending.len() == e.body.pending.len() + 12
                &&& base.pos_x == e.body.pos_x
                &&& base.pos_y == e.body.pos_y
            }),
        forall|i: usize|
            i < 3 && e.state == State::Shooting(i) && later(e.body.timer, delta) <= RING_PERIOD ==> ({
                let after = spec_tick(e, delta, px, py).0;
                &&& after.state == e.state
                &&& after.body.pending == e.body.pending
            }),
        forall|i: usize|
            i >= 3 && e.state == State::Shooting(i) ==> ({
                let after = spec_tick(e, delta, px, py).0;
                &&& after.state == State::Idle
                &&& after.body.pending == e.body.pending
            }),
{
    crate::vecmath::lemma_resize_to_nothing(
        crate::fixed::spec_sat_sub(px, e.body.pos_x),
        crate::fixed::spec_sat_sub(py, e.body.pos_y),
    );
}

/// The third ring ends the burst. With two rings fired, the tick that
/// brings the timer past [`RING_PERIOD`] fires the third, turned by ten
/// degrees; the tick after that, whatever its length, brings the enemy
/// back to rest and fires nothing.
pub proof fn lemma_third_ring_ends_burst(e: Level2Model, first: u64, second: u64, px: i64, py: i64)
    requires
        e.body.hp > 0,
        e.state == State::Shooting(2),
        later(e.body.timer, first) > RING_PERIOD,
    ensures
        ({
            let third = spec_tick(e, first, px, py).0;
            let rest = spec_tick(third, second, px, py).0;
            &&& third.state == State::Shooting(3)
            &&& third.body.pending == e.body.pending + ring(e.body.aim_at(px, py, 0), 10)
            &&& rest.state == State::Idle
            &&& rest.body.pending == third.body.pending
        }),
{
}

} // verus!
