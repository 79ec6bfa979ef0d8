//! The enemies: one per stage, each with its own attack schedule.
//!
//! Every enemy stands still, counts time, buffers the bullets that it fires
//! until the world collects them, and loses one hit point for each of the
//! player's bullets that comes within [`HIT_RADIUS`].

use vstd::prelude::*;
use crate::app::{Bullet, Player};
use crate::collision::{count_struck, drained, flag_struck, none_players_own};
use crate::fixed::spec_sat_sub;
use crate::vecmath::{
    length_kept, lemma_resize_has_length, norm_sq, spec_resize, turnable, NORM_EPSILON_SQ,
};

pub mod lv0;
pub mod lv1;
pub mod lv2;

use lv0::EnemyLevel0;
use lv1::EnemyLevel1;
use lv2::{EnemyLevel2, Level2Model};

verus! {

/// The speed of every enemy bullet: six units per second.
pub const ENEMY_BULLET_VELOCITY: i64 = 6_000_000;

/// How far from the enemy an aimed bullet appears: two and a half units.
pub const ENEMY_BULLET_OFFSET: i64 = 2_500_000;

/// A player's bullet this close to an enemy hits it: three units.
pub const HIT_RADIUS: i64 = 3_000_000;

/// The pause before an attack: two seconds.
pub const VOLLEY_PERIOD: u64 = 2_000_000_000;

/// Where every enemy stands, on both axes: thirty units.
pub const START_POS: i64 = 30_000_000;

/// The hit points that every enemy starts with.
pub const START_HP: isize = 10;

/// The number of stages: stage `i` is fought against the enemy of level `i`.
pub const STAGES: usize = 3;

/// What an enemy reports at the end of its tick.
#[derive(Debug, Clone, Copy, PartialEq, Eq, Structural)]
pub enum EnemyAction {
    /// The enemy lives on.
    Idle,
    /// The enemy has no hit points left and is to be replaced.
    Die,
}

/// What every enemy is made of: a position, hit points, the time since its
/// last attack, and the bullets that it has fired and not yet handed over.
pub struct Body {
    pub pos_x: i64,
    pub pos_y: i64,
    pub hp: isize,
    pub timer: u64,
    pub pending: Seq<Bullet>,
}

/// Whether the player at `(px, py)` stands far enough from the enemy for
/// the enemy to aim at it: a hundredth of a unit or more.
pub open spec fn in_sight(e: Body, px: i64, py: i64) -> bool {
    norm_sq(spec_sat_sub(px, e.pos_x) as int, spec_sat_sub(py, e.pos_y) as int) >= NORM_EPSILON_SQ
}

/// Whether `b` flies at the speed of an enemy bullet, up to rounding: its
/// speed differs from [`ENEMY_BULLET_VELOCITY`] by at most one raw unit. The
/// bounds are the squares of that speed less one and of that speed and one.
pub open spec fn at_speed(b: Bullet) -> bool {
    35_999_988_000_001 <= norm_sq(b.velocity_x as int, b.velocity_y as int)
        <= 36_000_012_000_001
}

/// Whether `b` is `base` turned: it flies as fast, up to rounding, and is
/// the same bullet otherwise.
pub open spec fn turned_from(base: Bullet, b: Bullet) -> bool {
    &&& length_kept(base.velocity_x, base.velocity_y, b.velocity_x, b.velocity_y)
    &&& b.pos_x == base.pos_x
    &&& b.pos_y == base.pos_y
    &&& b.is_player == base.is_player
    &&& b.will_remove == base.will_remove
}

/// `timer` after `delta` more nanoseconds. A timer that is full stays full.
pub open spec fn spec_later(timer: u64, delta: u64) -> u64 {
    if timer + delta > u64::MAX {
        u64::MAX
    } else {
        (timer + delta) as u64
    }
}

impl Body {
    /// An enemy as it enters the stage.
    pub open spec fn fresh() -> Body {
        Body { pos_x: START_POS, pos_y: START_POS, hp: START_HP, timer: 0, pending: Seq::empty() }
    }

    /// The same enemy `delta` nanoseconds later.
    pub open spec fn aged(self, delta: u64) -> Body {
        Body { timer: spec_later(self.timer, delta), ..self }
    }

    /// The enemy's bullet aimed at `(px, py)`, which starts `offset` away
    /// from the enemy.
    pub open spec fn aim_at(self, px: i64, py: i64, offset: i64) -> Bullet {
        Bullet::spec_aimed(self.pos_x, self.pos_y, px, py, offset, ENEMY_BULLET_VELOCITY, false)
    }

    /// The enemy with its timer started again.
    pub open spec fn restarted(self) -> Body {
        Body { timer: 0, ..self }
    }

    /// The enemy right after an attack: the timer starts again and the
    /// volley joins the buffer behind what is there.
    pub open spec fn fired(self, volley: Seq<Bullet>) -> Body {
        Body { timer: 0, pending: self.pending + volley, ..self }
    }

    /// The enemy after its buffer was collected.
    pub open spec fn emptied(self) -> Body {
        Body { pending: Seq::empty(), ..self }
    }

    /// The enemy after taking its hits from the pool `bullets`.
    pub open spec fn hurt(self, bullets: Seq<Bullet>) -> Body {
        Body {
            hp: drained(self.hp, count_struck(bullets, true, self.pos_x, self.pos_y, HIT_RADIUS)),
            ..self
        }
    }

    /// The pool `bullets` after this enemy took its hits from it.
    pub open spec fn flag(self, bullets: Seq<Bullet>) -> Seq<Bullet> {
        flag_struck(bullets, true, self.pos_x, self.pos_y, HIT_RADIUS)
    }
}

/// The time that a run of ticks takes, in nanoseconds.
pub open spec fn total(deltas: Seq<u64>) -> nat
    decreases deltas.len(),
{
    if deltas.len() == 0 {
        0
    } else {
        total(deltas.drop_last()) + deltas.last() as nat
    }
}

/// Advances a timer by `delta` nanoseconds.
#[verifier::when_used_as_spec(spec_later)]
pub fn later(timer: u64, delta: u64) -> (r: u64)
    ensures
        r == spec_later(timer, delta),
{
    if delta > u64::MAX - timer {
        u64::MAX
    } else {
        timer + delta
    }
}

/// Makes the bullet that an enemy at `(pos_x, pos_y)` aims at the player.
pub fn aim(pos_x: i64, pos_y: i64, player: &Player, offset: i64) -> (b: Bullet)
    ensures
        b == Bullet::spec_aimed(
            pos_x,
            pos_y,
            player.pos_x,
            player.pos_y,
            offset,
            ENEMY_BULLET_VELOCITY,
            false,
        ),
        !b.is_player,
        !b.will_remove,
{
    Bullet::aimed(pos_x, pos_y, player.pos_x, player.pos_y, offset, ENEMY_BULLET_VELOCITY, false)
}

/// The enemy on stage: one of the three levels.
#[derive(Debug)]
pub enum Enemy {
    Level0(EnemyLevel0),
    Level1(EnemyLevel1),
    Level2(EnemyLevel2),
}

/// What an [`Enemy`] stands for.
pub enum EnemyModel {
    Level0(Body),
    Level1(Body),
    Level2(Level2Model),
}

impl EnemyModel {
    /// The level of this enemy, which is the number of its stage.
    pub open spec fn level(self) -> usize {
        match self {
            EnemyModel::Level0(_) => 0,
            EnemyModel::Level1(_) => 1,
            EnemyModel::Level2(_) => 2,
        }
    }

    /// Whether this enemy is where its schedule can bring it: every bullet
    /// in its buffer is its own, and the third enemy never counts more
    /// rings in a burst than a burst has.
    pub open spec fn well_formed(self) -> bool {
        &&& none_players_own(self.body().pending)
        &&& match self {
            EnemyModel::Level2(e) => match e.state {
                lv2::State::Shooting(fired) => fired <= lv2::RINGS,
                lv2::State::Idle => true,
            },
            _ => true,
        }
    }

    /// What this enemy has in common with the others.
    pub open spec fn body(self) -> Body {
        match self {
            EnemyModel::Level0(e) => e,
            EnemyModel::Level1(e) => e,
            EnemyModel::Level2(e) => e.body,
        }
    }

    /// This enemy with another body.
    pub open spec fn with_body(self, body: Body) -> EnemyModel {
        match self {
            EnemyModel::Level0(_) => EnemyModel::Level0(body),
            EnemyModel::Level1(_) => EnemyModel::Level1(body),
            EnemyModel::Level2(e) => EnemyModel::Level2(Level2Model { body, state: e.state }),
        }
    }

    /// One tick of this enemy's own schedule, with the player at
    /// `(px, py)`.
    pub open spec fn tick(self, delta: u64, px: i64, py: i64) -> (EnemyModel, EnemyAction) {
        match self {
            EnemyModel::Level0(e) => {
                let r = lv0::spec_tick(e, delta, px, py);
                (EnemyModel::Level0(r.0), r.1)
            },
            EnemyModel::Level1(e) => {
                let r = lv1::spec_tick(e, delta, px, py);
                (EnemyModel::Level1(r.0), r.1)
            },
            EnemyModel::Level2(e) => {
                let r = lv2::spec_tick(e, delta, px, py);
                (EnemyModel::Level2(r.0), r.1)
            },
        }
    }

    /// This enemy after its buffer was collected.
    pub open spec fn emptied(self) -> EnemyModel {
        self.with_body(self.body().emptied())
    }

    /// This enemy after taking its hits from the pool `bullets`.
    pub open spec fn hurt(self, bullets: Seq<Bullet>) -> EnemyModel {
        self.with_body(self.body().hurt(bullets))
    }
}

impl View for Enemy {
    type V = EnemyModel;

    open spec fn view(&self) -> EnemyModel {
        match self {
            Enemy::Level0(e) => EnemyModel::Level0(e@),
            Enemy::Level1(e) => EnemyModel::Level1(e@),
            Enemy::Level2(e) => EnemyModel::Level2(e@),
        }
    }
}

impl Enemy {
    /// Lets `delta` nanoseconds pass for the enemy: its timer runs on, and
    /// it either reports its death or follows its attack schedule.
    pub fn tick(&mut self, delta: u64, player: &Player) -> (action: EnemyAction)
        ensures
            (final(self)@, action) == old(self)@.tick(delta, player.pos_x, player.pos_y),
            action is Die <==> old(self)@.body().hp <= 0,
    {
        match self {
            Enemy::Level0(e) => e.tick(delta, player),
            Enemy::Level1(e) => e.tick(delta, player),
            Enemy::Level2(e) => e.tick(delta, player),
        }
    }

    /// Hands over the bullets fired since the last call, oldest first, and
    /// empties the buffer: a second call right after gives nothing.
    pub fn bullets(&mut self) -> (out: Vec<Bullet>)
        ensures
            out@ == old(self)@.body().pending,
            final(self)@ == old(self)@.emptied(),
    {
        match self {
            Enemy::Level0(e) => e.bullets(),
            Enemy::Level1(e) => e.bullets(),
            Enemy::Level2(e) => e.bullets(),
        }
    }

    /// Takes the hits from the pool: each of the player's bullets within
    /// [`HIT_RADIUS`] of the enemy is flagged for removal and costs the
    /// enemy one hit point. No bullet leaves the pool here.
    pub fn hurt(&mut self, bullets: &mut Vec<Bullet>)
        ensures
            final(bullets)@ == old(self)@.body().flag(old(bullets)@),
            final(self)@ == old(self)@.hurt(old(bullets)@),
    {
        match self {
            Enemy::Level0(e) => e.hurt(bullets),
            Enemy::Level1(e) => e.hurt(bullets),
            Enemy::Level2(e) => e.hurt(bullets),
        }
    }

    /// The hit points that are left.
    pub fn hp(&self) -> (hp: isize)
        ensures
            hp == self@.body().hp,
    {
        match self {
            Enemy::Level0(e) => e.hp(),
            Enemy::Level1(e) => e.hp(),
            Enemy::Level2(e) => e.hp(),
        }
    }

    /// Where the enemy stands.
    pub fn pos(&self) -> (pos: (i64, i64))
        ensures
            pos == (self@.body().pos_x, self@.body().pos_y),
    {
        match self {
            Enemy::Level0(e) => e.pos(),
            Enemy::Level1(e) => e.pos(),
            Enemy::Level2(e) => e.pos(),
        }
    }
}

/// The enemy that enters at `stage_index`, if there is a stage of that
/// number.
pub open spec fn spec_create_enemy(stage_index: usize) -> Option<EnemyModel> {
    if stage_index == 0 {
        Some(EnemyModel::Level0(Body::fresh()))
    } else if stage_index == 1 {
        Some(EnemyModel::Level1(Body::fresh()))
    } else if stage_index == 2 {
        Some(EnemyModel::Level2(Level2Model { body: Body::fresh(), state: lv2::State::Idle }))
    } else {
        None
    }
}

/// What an enemy that may be absent stands for.
pub open spec fn enemy_view(enemy: Option<Enemy>) -> Option<EnemyModel> {
    match enemy {
        Some(e) => Some(e@),
        None => None,
    }
}

/// Makes the enemy of stage `stage_index`: level 0, 1 or 2. Past the last
/// stage there is none.
pub fn create_enemy(stage_index: usize) -> (enemy: Option<Enemy>)
    ensures
        enemy_view(enemy) == spec_create_enemy(stage_index),
        enemy is Some <==> stage_index < STAGES,
{
    if stage_index == 0 {
        Some(Enemy::Level0(EnemyLevel0::new()))
    } else if stage_index == 1 {
        Some(Enemy::Level1(EnemyLevel1::new()))
    } else if stage_index == 2 {
        Some(Enemy::Level2(EnemyLevel2::new()))
    } else {
        None
    }
}

/// An enemy without hit points reports its death at its next tick,
/// whatever time has passed, and be it none at all.
pub proof fn lemma_dead_enemy_reports_death(e: EnemyModel, delta: u64, px: i64, py: i64)
    requires
        e.body().hp <= 0,
    ensures
        e.tick(delta, px, py).1 == EnemyAction::Die,
        e.tick(delta, px, py).0.body().pending == e.body().pending,
{
}

/// An enemy with hit points left never reports its death.
pub proof fn lemma_living_enemy_stays(e: EnemyModel, delta: u64, px: i64, py: i64)
    requires
        e.body().hp > 0,
    ensures
        e.tick(delta, px, py).1 == EnemyAction::Idle,
{
}

/// Hit points change only by taking hits, and then they only fall; an enemy
/// never moves.
pub proof fn lemma_hp_falls_only_by_hits(
    e: EnemyModel,
    delta: u64,
    px: i64,
    py: i64,
    bullets: Seq<Bullet>,
)
    ensures
        e.tick(delta, px, py).0.body().hp == e.body().hp,
        e.emptied().body().hp == e.body().hp,
        e.hurt(bullets).body().hp <= e.body().hp,
        e.tick(delta, px, py).0.body().pos_x == e.body().pos_x,
        e.tick(delta, px, py).0.body().pos_y == e.body().pos_y,
        e.hurt(bullets).body().pos_x == e.body().pos_x,
        e.hurt(bullets).body().pos_y == e.body().pos_y,
{
}

/// Collecting the buffer twice in a row gives nothing the second time.
pub proof fn lemma_buffer_is_handed_over_once(e: EnemyModel)
    ensures
        e.emptied().body().pending == Seq::<Bullet>::empty(),
        e.emptied().emptied() == e.emptied(),
{
}

/// An enemy enters in order, at its own level, and stays in order and at
/// its level whatever happens to it.
pub proof fn lemma_enemy_stays_well_formed(
    e: EnemyModel,
    delta: u64,
    px: i64,
    py: i64,
    bullets: Seq<Bullet>,
)
    requires
        e.well_formed(),
    ensures
        e.tick(delta, px, py).0.well_formed(),
        e.tick(delta, px, py).0.level() == e.level(),
        e.emptied().well_formed(),
        e.emptied().level() == e.level(),
        e.hurt(bullets).well_formed(),
        e.hurt(bullets).level() == e.level(),
        forall|stage: usize|
            stage < STAGES ==> {
                &&& (#[trigger] spec_create_enemy(stage)) is Some
                &&& spec_create_enemy(stage)->0.well_formed()
                &&& spec_create_enemy(stage)->0.level() == stage
            },
        forall|stage: usize| stage >= STAGES ==> (#[trigger] spec_create_enemy(stage)) is None,
{
}

/// The bullet that an enemy aims at a player in sight flies at the speed
/// of an enemy bullet, up to rounding; aimed at a player too near to aim
/// at, it does not move. Either way its velocity is one that a turn keeps
/// the length of. It is the enemy's, and not flagged.
pub proof fn lemma_aimed_bullet(e: Body, px: i64, py: i64, offset: i64)
    ensures
        ({
            let b = e.aim_at(px, py, offset);
            &&& in_sight(e, px, py) ==> at_speed(b)
            &&& !in_sight(e, px, py) ==> b.velocity_x == 0 && b.velocity_y == 0
            &&& turnable(b.velocity_x, b.velocity_y)
            &&& !b.is_player
            &&& !b.will_remove
        }),
{
    let dx = spec_sat_sub(px, e.pos_x);
    let dy = spec_sat_sub(py, e.pos_y);
    let v = spec_resize(dx, dy, ENEMY_BULLET_VELOCITY);
    if in_sight(e, px, py) {
        lemma_resize_has_length(dx, dy, ENEMY_BULLET_VELOCITY);
        assert(5_999_999 * 5_999_999 == 35_999_988_000_001 && 6_000_001 * 6_000_001
            == 36_000_012_000_001) by (nonlinear_arith);
        assert(-6_000_001 <= v.0 <= 6_000_001 && -6_000_001 <= v.1 <= 6_000_001) by (
            nonlinear_arith)
            requires
                v.0 * v.0 + v.1 * v.1 <= 6_000_001 * 6_000_001,
        ;
    }
}

} // verus!
