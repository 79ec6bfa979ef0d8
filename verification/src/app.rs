//! The player, the bullets, and the world that a tick steps.

use vstd::prelude::*;
use vstd::string::*;
use crate::battle::{
    create_enemy, enemy_view, lemma_enemy_stays_well_formed, lemma_hp_falls_only_by_hits,
    spec_create_enemy, Enemy, EnemyAction, EnemyModel, STAGES,
};
use crate::collision::{
    advance_all, advanced, all_players_own, count_struck, drained, flag_struck, keep_players_own,
    lemma_advanced_keeps_tags, lemma_flag_struck_marks_hits, lemma_live_is_clean,
    lemma_enemys_pool_has_no_players, lemma_kept_bullets, lemma_of_player_is_players,
    lemma_pruning_adds_no_players, lemma_same_owners_same_count, live, none_flagged, of_player,
    prune, struck, sweep,
};
use crate::fixed::{
    clamp, round_div, round_quotient, sat_add, sat_sub, saturate, scale_by_time, step,
};
use crate::skill::{skill_names, Skill};
use crate::text::{decimal, spec_decimal, spec_two_decimals, two_decimals};
use crate::vecmath::{
    has_length, is_unit, length_kept, lemma_norm_is_unit, makeable, map_range, norm, norm_sq,
    resize, rotate_vector, spec_map_range, turnable, NORM_EPSILON_SQ,
};

verus! {

/// The speed of the player's bullets: twelve units per second.
pub const BULLET_VELOCITY: i64 = 12_000_000;

/// How far in front of the player a bullet appears: one and a half units.
pub const BULLET_OFFSET: i64 = 1_500_000;

/// How many times as tall as wide a character cell of the screen is.
pub const CHAR_RATIO: i64 = 2;

/// A projectile. Which side fired it is fixed when it is made; it decides
/// whom the bullet can hit.
#[derive(Debug, Default, Clone, Copy, PartialEq, Eq, Structural)]
pub struct Bullet {
    pub pos_x: i64,
    pub pos_y: i64,
    pub velocity_x: i64,
    pub velocity_y: i64,
    pub is_player: bool,
    pub will_remove: bool,
}

impl Bullet {
    /// The bullet fired from `(ox, oy)` toward `(tx, ty)`: it starts
    /// `offset` along the aim and flies at `speed`. Both the lead and the
    /// velocity are taken from the aim at full accuracy, each rounded once.
    /// Where the target is too close to give an aim, it stays at the origin
    /// and does not move.
    pub open spec fn spec_aimed(
        ox: i64,
        oy: i64,
        tx: i64,
        ty: i64,
        offset: i64,
        speed: i64,
        is_player: bool,
    ) -> Bullet {
        let lead = resize(sat_sub(tx, ox), sat_sub(ty, oy), offset);
        let velocity = resize(sat_sub(tx, ox), sat_sub(ty, oy), speed);
        Bullet {
            pos_x: sat_add(ox, lead.0),
            pos_y: sat_add(oy, lead.1),
            velocity_x: velocity.0,
            velocity_y: velocity.1,
            is_player,
            will_remove: false,
        }
    }

    /// This bullet with its velocity turned by `degrees`.
    pub open spec fn spec_rotated(&self, degrees: i32) -> Bullet {
        let v = rotate_vector(self.velocity_x, self.velocity_y, degrees);
        Bullet { velocity_x: v.0, velocity_y: v.1, ..*self }
    }

    /// This bullet after flying for `delta` nanoseconds.
    pub open spec fn spec_advanced(self, delta: u64) -> Bullet {
        Bullet {
            pos_x: sat_add(self.pos_x, scale_by_time(self.velocity_x, delta)),
            pos_y: sat_add(self.pos_y, scale_by_time(self.velocity_y, delta)),
            ..self
        }
    }

    /// Makes the bullet fired from `(ox, oy)` toward `(tx, ty)`.
    #[verifier::when_used_as_spec(spec_aimed)]
    pub fn aimed(
        ox: i64,
        oy: i64,
        tx: i64,
        ty: i64,
        offset: i64,
        speed: i64,
        is_player: bool,
    ) -> (b: Bullet)
        ensures
            b == Bullet::spec_aimed(ox, oy, tx, ty, offset, speed, is_player),
            norm_sq(sat_sub(tx, ox) as int, sat_sub(ty, oy) as int) >= NORM_EPSILON_SQ && makeable(
                speed as int,
            ) ==> has_length(b.velocity_x, b.velocity_y, speed as int),
    {
        let lead = resize(sat_sub(tx, ox), sat_sub(ty, oy), offset);
        let velocity = resize(sat_sub(tx, ox), sat_sub(ty, oy), speed);
        Bullet {
            pos_x: sat_add(ox, lead.0),
            pos_y: sat_add(oy, lead.1),
            velocity_x: velocity.0,
            velocity_y: velocity.1,
            is_player,
            will_remove: false,
        }
    }

    /// A copy of this bullet with its velocity turned counter-clockwise by
    /// `degrees`; position, owner and flag are kept, and so is the speed, up
    /// to rounding.
    #[verifier::when_used_as_spec(spec_rotated)]
    pub fn rotated(&self, degrees: i32) -> (b: Bullet)
        ensures
            b == self.spec_rotated(degrees),
            b.pos_x == self.pos_x && b.pos_y == self.pos_y,
            b.is_player == self.is_player && b.will_remove == self.will_remove,
            turnable(self.velocity_x, self.velocity_y) ==> length_kept(
                self.velocity_x,
                self.velocity_y,
                b.velocity_x,
                b.velocity_y,
            ),
    {
        let v = rotate_vector(self.velocity_x, self.velocity_y, degrees);
        Bullet {
            pos_x: self.pos_x,
            pos_y: self.pos_y,
            velocity_x: v.0,
            velocity_y: v.1,
            is_player: self.is_player,
            will_remove: self.will_remove,
        }
    }

    /// Moves the bullet along its velocity for `delta` nanoseconds.
    pub fn advance(&mut self, delta: u64)
        ensures
            *final(self) == old(self).spec_advanced(delta),
    {
        self.pos_x = sat_add(self.pos_x, scale_by_time(self.velocity_x, delta));
        self.pos_y = sat_add(self.pos_y, scale_by_time(self.velocity_y, delta));
    }
}

/// The player: where it stands, which way it faces, its hit points and
/// magic points, and the abilities queued for its next shot.
#[derive(Debug, Default)]
pub struct Player {
    pub pos_x: i64,
    pub pos_y: i64,
    pub face_x: i64,
    pub face_y: i64,
    pub hp: isize,
    pub max_hp: isize,
    pub mp: isize,
    pub max_mp: isize,
    pub move_velocity: i64,
    pub size: i64,
    pub skills: Vec<Skill>,
}

/// What a [`Player`] stands for: its numbers, and the names of its queued
/// abilities.
pub struct PlayerModel {
    pub pos_x: i64,
    pub pos_y: i64,
    pub face_x: i64,
    pub face_y: i64,
    pub hp: isize,
    pub max_hp: isize,
    pub mp: isize,
    pub max_mp: isize,
    pub move_velocity: i64,
    pub size: i64,
    pub skills: Seq<Seq<char>>,
}

impl View for Player {
    type V = PlayerModel;

    open spec fn view(&self) -> PlayerModel {
        PlayerModel {
            pos_x: self.pos_x,
            pos_y: self.pos_y,
            face_x: self.face_x,
            face_y: self.face_y,
            hp: self.hp,
            max_hp: self.max_hp,
            mp: self.mp,
            max_mp: self.max_mp,
            move_velocity: self.move_velocity,
            size: self.size,
            skills: skill_names(self.skills@),
        }
    }
}

impl PlayerModel {
    /// The player after a step by `(delta_x, delta_y)`. The step is added to
    /// the position; where it is long enough to have a direction, the player
    /// faces that way, else the facing stays.
    pub open spec fn walk(self, delta_x: i64, delta_y: i64) -> PlayerModel {
        let dir = norm(delta_x, delta_y);
        let turned = dir.0 != 0 || dir.1 != 0;
        PlayerModel {
            pos_x: sat_add(self.pos_x, delta_x),
            pos_y: sat_add(self.pos_y, delta_y),
            face_x: if turned { dir.0 } else { self.face_x },
            face_y: if turned { dir.1 } else { self.face_y },
            ..self
        }
    }

    /// The player after `n` steps of no length.
    pub open spec fn idle_walks(self, n: nat) -> PlayerModel
        decreases n,
    {
        if n == 0 {
            self
        } else {
            self.walk(0, 0).idle_walks((n - 1) as nat)
        }
    }

    /// The bullet that the player fires at `(sx, sy)`.
    pub open spec fn new_bullet(self, sx: i64, sy: i64) -> Bullet {
        Bullet::spec_aimed(self.pos_x, self.pos_y, sx, sy, BULLET_OFFSET, BULLET_VELOCITY, true)
    }
}

impl Player {
    /// Moves the player by `(delta_x, delta_y)` and turns it to face along
    /// the step, unless the step is too short to have a direction.
    pub fn walk(&mut self, delta_x: i64, delta_y: i64)
        ensures
            final(self)@ == old(self)@.walk(delta_x, delta_y),
            delta_x == 0 && delta_y == 0 ==> final(self)@ == old(self)@,
            final(self).face_x == old(self).face_x && final(self).face_y == old(self).face_y
                || is_unit(final(self).face_x, final(self).face_y),
    {
        proof {
            assert(norm_sq(0, 0) == 0) by (nonlinear_arith);
            lemma_facing_stays_a_direction(self@, delta_x, delta_y);
        }
        self.pos_x = sat_add(self.pos_x, delta_x);
        self.pos_y = sat_add(self.pos_y, delta_y);
        let dir = norm(delta_x, delta_y);
        if dir.0 != 0 || dir.1 != 0 {
            self.face_x = dir.0;
            self.face_y = dir.1;
        }
    }

    /// Makes a bullet aimed at `(sx, sy)`: it starts [`BULLET_OFFSET`] in
    /// front of the player, flies at [`BULLET_VELOCITY`], and is the
    /// player's own.
    pub fn new_bullet(&self, sx: i64, sy: i64) -> (b: Bullet)
        ensures
            b == self@.new_bullet(sx, sy),
            b.is_player,
            !b.will_remove,
    {
        Bullet::aimed(self.pos_x, self.pos_y, sx, sy, BULLET_OFFSET, BULLET_VELOCITY, true)
    }
}

/// Standing still never turns the player: any number of steps of no length
/// leaves it exactly as it was, facing included.
pub proof fn lemma_idle_walks_keep_facing(p: PlayerModel, n: nat)
    ensures
        p.idle_walks(n) == p,
        p.idle_walks(n).face_x == p.face_x,
        p.idle_walks(n).face_y == p.face_y,
    decreases n,
{
    if n > 0 {
        assert(norm_sq(0, 0) == 0) by (nonlinear_arith);
        assert(p.walk(0, 0) == p);
        lemma_idle_walks_keep_facing(p, (n - 1) as nat);
    }
}

/// What the outside world asks of the player, queued until the next tick.
#[derive(Debug, Clone, Copy, PartialEq, Eq, Structural)]
pub enum GameEvent {
    /// Move along this vector; one world unit stands for full speed.
    PlayerMove(i64, i64),
    /// Shoot at this point of the world.
    Shoot(i64, i64),
}

/// One line of the game log.
#[derive(Debug, PartialEq, Eq)]
pub struct GameLog(pub String);

/// The lines of a log as plain text, oldest first.
pub open spec fn log_texts(logs: Seq<GameLog>) -> Seq<Seq<char>> {
    logs.map_values(|l: GameLog| l.0@)
}

/// The line logged for a shot at `(sx, sy)`, as in `shoot pos=(1.50, -2.00)`.
pub open spec fn shot_text(sx: i64, sy: i64) -> Seq<char> {
    "shoot pos=("@ + spec_two_decimals(sx) + ", "@ + spec_two_decimals(sy) + ")"@
}

/// The line logged when the enemy of stage `stage_index` dies, as in
/// `enemy 0 died.`.
pub open spec fn death_text(stage_index: usize) -> Seq<char> {
    "enemy "@ + spec_decimal(stage_index as nat) + " died."@
}

/// A rectangle of the screen, in character cells.
#[derive(Debug, Default, Clone, Copy, PartialEq, Eq, Structural)]
pub struct Rect {
    pub x: u16,
    pub y: u16,
    pub width: u16,
    pub height: u16,
}

/// What a mouse button did.
#[derive(Debug, Clone, Copy, PartialEq, Eq, Structural)]
pub enum MouseEventKind {
    /// A button went down.
    Down,
    /// A button came up.
    Up,
    /// Anything else: movement, dragging, scrolling.
    Other,
}

/// A mouse event at a character cell of the screen.
#[derive(Debug, Clone, Copy, PartialEq, Eq, Structural)]
pub struct MouseEvent {
    pub kind: MouseEventKind,
    pub column: u16,
    pub row: u16,
}

/// Half the height of the world that a canvas of the shape of `rect`
/// shows, where half the width is `world_width`.
pub open spec fn spec_half_height(world_width: i64, rect: Rect) -> i64
    recommends
        rect.width > 0,
{
    clamp(round_div(world_width * rect.height * CHAR_RATIO, rect.width as int))
}

/// The point of the world that is drawn at the cell `(column, row)` of the
/// screen. The canvas `rect` shows the world from `-world_width` on its left
/// edge to `world_width` on its right edge, and from the half height at its
/// top down to minus the half height at its bottom.
pub open spec fn click_target(world_width: i64, rect: Rect, column: u16, row: u16) -> (i64, i64)
    recommends
        rect.width > 0,
        rect.height > 0,
{
    let x_size = world_width;
    let y_size = spec_half_height(world_width, rect);
    (
        spec_map_range(
            sat_sub(0, x_size),
            x_size,
            rect.x as i32,
            (rect.x + rect.width) as i32,
            column as i32,
        ),
        spec_map_range(
            y_size,
            sat_sub(0, y_size),
            rect.y as i32,
            (rect.y + rect.height) as i32,
            row as i32,
        ),
    )
}

/// What the queued events ask for in one tick.
#[derive(Debug, Clone, Copy)]
pub struct Intent {
    /// The sum of all the moves.
    pub move_x: i64,
    pub move_y: i64,
    /// The target of the last shot that was asked for, if any.
    pub shot: Option<(i64, i64)>,
}

/// The sum of the moves in `events`, taken in order; shots do not count.
pub open spec fn moves(events: Seq<GameEvent>) -> (i64, i64)
    decreases events.len(),
{
    if events.len() == 0 {
        (0i64, 0i64)
    } else {
        let before = moves(events.drop_last());
        match events.last() {
            GameEvent::PlayerMove(x, y) => (sat_add(before.0, x), sat_add(before.1, y)),
            GameEvent::Shoot(_, _) => before,
        }
    }
}

/// The target of the last shot in `events`: earlier shots are superseded.
pub open spec fn last_shot(events: Seq<GameEvent>) -> Option<(i64, i64)>
    decreases events.len(),
{
    if events.len() == 0 {
        None
    } else {
        match events.last() {
            GameEvent::Shoot(x, y) => Some((x, y)),
            GameEvent::PlayerMove(_, _) => last_shot(events.drop_last()),
        }
    }
}

/// What `events` ask for.
pub open spec fn intent_of(events: Seq<GameEvent>) -> Intent {
    Intent { move_x: moves(events).0, move_y: moves(events).1, shot: last_shot(events) }
}

/// The stage after `stage_index`.
pub open spec fn next_stage(stage_index: usize) -> usize {
    if stage_index < usize::MAX {
        (stage_index + 1) as usize
    } else {
        stage_index
    }
}

/// The world: the player, the enemy on stage if there is one, the one pool
/// that holds the bullets of both sides, the events that wait for the next
/// tick, and the log.
#[derive(Debug)]
pub struct App {
    /// Is the application running?
    pub running: bool,
    pub player: Player,
    pub stage_index: usize,
    pub logs: Vec<GameLog>,
    pub bullets: Vec<Bullet>,
    pub events: Vec<GameEvent>,
    /// Half the width of the visible world, in raw units.
    pub world_width: i64,
    /// The enemy on stage; none once the last stage is won.
    pub enemy: Option<Enemy>,
    pub casting: bool,
    /// Where the world is drawn on the screen; needed to aim with the
    /// mouse.
    pub canvas_rect: Rect,
}

/// What an [`App`] stands for.
pub struct World {
    pub running: bool,
    pub player: PlayerModel,
    pub stage_index: usize,
    pub logs: Seq<Seq<char>>,
    pub bullets: Seq<Bullet>,
    pub events: Seq<GameEvent>,
    pub world_width: i64,
    pub enemy: Option<EnemyModel>,
    pub casting: bool,
    pub canvas_rect: Rect,
}

impl View for App {
    type V = World;

    open spec fn view(&self) -> World {
        World {
            running: self.running,
            player: self.player@,
            stage_index: self.stage_index,
            logs: log_texts(self.logs@),
            bullets: self.bullets@,
            events: self.events@,
            world_width: self.world_width,
            enemy: enemy_view(self.enemy),
            casting: self.casting,
            canvas_rect: self.canvas_rect,
        }
    }
}

impl World {
    /// The world at the start of a game.
    pub open spec fn initial() -> World {
        World {
            running: true,
            player: PlayerModel {
                pos_x: 0,
                pos_y: 0,
                face_x: 1_000_000,
                face_y: 0,
                hp: 100,
                max_hp: 100,
                mp: 50,
                max_mp: 50,
                move_velocity: 6_000_000,
                size: 2_000_000,
                skills: Seq::empty(),
            },
            stage_index: 0,
            logs: Seq::empty(),
            bullets: Seq::empty(),
            events: Seq::empty(),
            world_width: 100_000_000,
            enemy: spec_create_enemy(0),
            casting: false,
            canvas_rect: Rect { x: 0, y: 0, width: 0, height: 0 },
        }
    }

    /// What holds of the world from the start of a game on. The player
    /// faces in a direction. The stage is one of the stages, or the one
    /// past the last, and the enemy on stage is the one of that stage, in
    /// order; past the last stage there is none. No bullet in the pool is
    /// flagged for removal, and once the last enemy is gone, every bullet is
    /// the player's.
    pub open spec fn well_formed(self) -> bool {
        &&& is_unit(self.player.face_x, self.player.face_y)
        &&& self.stage_index <= STAGES
        &&& self.enemy is Some <==> self.stage_index < STAGES
        &&& self.enemy matches Some(e) ==> e.well_formed() && e.level() == self.stage_index
        &&& none_flagged(self.bullets)
        &&& self.enemy is None ==> all_players_own(self.bullets)
    }

    /// The world with its queue of events emptied.
    pub open spec fn drained_events(self) -> World {
        World { events: Seq::empty(), ..self }
    }

    /// The world after the player has moved as `(move_x, move_y)` asks, for
    /// `delta` nanoseconds at its own speed. Either component of the step is
    /// rounded once.
    pub open spec fn moved(self, move_x: i64, move_y: i64, delta: u64) -> World {
        let speed = self.player.move_velocity;
        World { player: self.player.walk(step(move_x, speed, delta), step(move_y, speed, delta)), ..self }
    }

    /// The world after the player tried to shoot at `(sx, sy)`. With magic
    /// points left, one of them pays for one bullet, which joins the pool,
    /// and the shot is logged. Without, the log says so and nothing is
    /// fired. The queued abilities are used up either way.
    pub open spec fn shot(self, sx: i64, sy: i64) -> World {
        if self.player.mp <= 0 {
            World {
                logs: self.logs.push("not enough MP"@),
                player: PlayerModel { skills: Seq::empty(), ..self.player },
                ..self
            }
        } else {
            World {
                bullets: self.bullets.push(self.player.new_bullet(sx, sy)),
                logs: self.logs.push(shot_text(sx, sy)),
                player: PlayerModel {
                    mp: (self.player.mp - 1) as isize,
                    skills: Seq::empty(),
                    ..self.player
                },
                ..self
            }
        }
    }

    /// The world after the shot at `shot`, if there is one to be made.
    pub open spec fn maybe_shot(self, shot: Option<(i64, i64)>) -> World {
        match shot {
            Some(target) => self.shot(target.0, target.1),
            None => self,
        }
    }

    /// The world after every bullet has flown for `delta` nanoseconds and
    /// the player has taken its hits: each enemy bullet that has come within
    /// the player's size of the player is flagged and costs one hit point.
    pub open spec fn flown(self, delta: u64) -> World {
        let pool = advanced(self.bullets, delta);
        let p = self.player;
        World {
            bullets: flag_struck(pool, false, p.pos_x, p.pos_y, p.size),
            player: PlayerModel {
                hp: drained(p.hp, count_struck(pool, false, p.pos_x, p.pos_y, p.size)),
                ..p
            },
            ..self
        }
    }

    /// The world after the enemy's turn. Where the enemy reports its
    /// death, that is logged, the next stage begins with its own enemy, or
    /// with none after the last, and only the player's bullets stay. Where
    /// it lives on, the bullets that it has fired join the pool, and it
    /// takes its hits from the whole pool. Without an enemy nothing
    /// happens.
    pub open spec fn enemy_turn(self, delta: u64) -> World {
        match self.enemy {
            None => self,
            Some(enemy) => {
                let r = enemy.tick(delta, self.player.pos_x, self.player.pos_y);
                match r.1 {
                    EnemyAction::Die => World {
                        logs: self.logs.push(death_text(self.stage_index)),
                        stage_index: next_stage(self.stage_index),
                        enemy: spec_create_enemy(next_stage(self.stage_index)),
                        bullets: of_player(self.bullets),
                        ..self
                    },
                    EnemyAction::Idle => {
                        let pool = self.bullets + r.0.body().pending;
                        World {
                            bullets: r.0.body().flag(pool),
                            enemy: Some(r.0.emptied().hurt(pool)),
                            ..self
                        }
                    },
                }
            },
        }
    }

    /// The world after a mouse event. A button that goes down starts a
    /// cast, which is logged. A button that comes up over a canvas that is
    /// not empty queues a shot at the point of the world under the mouse;
    /// over an empty canvas there is no such point, and nothing is queued.
    /// Other events change nothing.
    pub open spec fn mouse(self, evt: MouseEvent) -> World {
        match evt.kind {
            MouseEventKind::Down => World {
                casting: true,
                logs: self.logs.push("casting..."@),
                ..self
            },
            MouseEventKind::Up => if self.canvas_rect.width == 0 || self.canvas_rect.height == 0 {
                self
            } else {
                let target = click_target(self.world_width, self.canvas_rect, evt.column, evt.row);
                World { events: self.events.push(GameEvent::Shoot(target.0, target.1)), ..self }
            },
            MouseEventKind::Other => self,
        }
    }

    /// The world without the bullets that are flagged for removal.
    pub open spec fn pruned(self) -> World {
        World { bullets: live(self.bullets), ..self }
    }

    /// The world one tick of `delta` nanoseconds later: the queued events
    /// are taken, the player moves, then shoots if asked to, the bullets
    /// fly and hit the player, the enemy has its turn, and the flagged
    /// bullets go.
    pub open spec fn tick(self, delta: u64) -> World {
        let intent = intent_of(self.events);
        self.drained_events().moved(intent.move_x, intent.move_y, delta).maybe_shot(
            intent.shot,
        ).flown(delta).enemy_turn(delta).pruned()
    }
}

impl Default for App {
    fn default() -> (app: Self)
        ensures
            app@ == World::initial(),
            app@.well_formed(),
    {
        proof {
            lemma_initial_is_well_formed();
        }
        let app = Self {
            running: true,
            player: Player {
                pos_x: 0,
                pos_y: 0,
                face_x: 1_000_000,
                face_y: 0,
                hp: 100,
                max_hp: 100,
                mp: 50,
                max_mp: 50,
                move_velocity: 6_000_000,
                size: 2_000_000,
                skills: Vec::new(),
            },
            stage_index: 0,
            logs: Vec::new(),
            bullets: Vec::new(),
            events: Vec::new(),
            world_width: 100_000_000,
            enemy: create_enemy(0),
            casting: false,
            canvas_rect: Rect { x: 0, y: 0, width: 0, height: 0 },
        };
        assert(app@.logs =~= Seq::<Seq<char>>::empty());
        assert(app@.player.skills =~= Seq::<Seq<char>>::empty());
        app
    }
}

impl App {
    /// Makes the world at the start of a game.
    pub fn new() -> (app: Self)
        ensures
            app@ == World::initial(),
            app@.well_formed(),
    {
        Self::default()
    }

    /// Appends a line to the log.
    fn log(&mut self, line: String)
        ensures
            final(self)@ == (World { logs: old(self)@.logs.push(line@), ..old(self)@ }),
            final(self).player == old(self).player,
            final(self).enemy == old(self).enemy,
    {
        self.logs.push(GameLog(line));
        assert(log_texts(self.logs@) =~= log_texts(old(self).logs@).push(line@));
    }

    /// Takes the queued events and says what they ask for: the sum of the
    /// moves, and the last of the shots. The queue is left empty.
    pub fn take_events(&mut self) -> (intent: Intent)
        ensures
            intent == intent_of(old(self)@.events),
            final(self)@ == old(self)@.drained_events(),
    {
        let mut move_x: i64 = 0;
        let mut move_y: i64 = 0;
        let mut shot: Option<(i64, i64)> = None;
        let n = self.events.len();
        let mut i: usize = 0;
        assert(self.events@.take(0) =~= Seq::<GameEvent>::empty());
        while i < n
            invariant
                i <= n,
                n == self.events.len(),
                *self == *old(self),
                (move_x, move_y) == moves(self.events@.take(i as int)),
                shot == last_shot(self.events@.take(i as int)),
            decreases n - i,
        {
            assert(self.events@.take(i + 1).drop_last() =~= self.events@.take(i as int));
            match self.events[i] {
                GameEvent::PlayerMove(x, y) => {
                    move_x = sat_add(move_x, x);
                    move_y = sat_add(move_y, y);
                },
                GameEvent::Shoot(x, y) => {
                    shot = Some((x, y));
                },
            }
            i += 1;
        }
        assert(self.events@.take(n as int) =~= self.events@);
        self.events.clear();
        Intent { move_x, move_y, shot }
    }

    /// Moves the player as `(move_x, move_y)` asks, for `delta` nanoseconds
    /// at its own speed.
    pub fn move_player(&mut self, move_x: i64, move_y: i64, delta: u64)
        ensures
            final(self)@ == old(self)@.moved(move_x, move_y, delta),
    {
        let speed = self.player.move_velocity;
        self.player.walk(step(move_x, speed, delta), step(move_y, speed, delta));
    }

    /// The player tries to shoot at `(sx, sy)`. A shot costs one magic
    /// point. With none left, nothing is fired and the log gets the line
    /// `not enough MP`; else exactly one bullet joins the pool and the shot
    /// is logged. The queued abilities are used up either way.
    pub fn shoot(&mut self, sx: i64, sy: i64)
        ensures
            final(self)@ == old(self)@.shot(sx, sy),
            final(self)@.logs.len() == old(self)@.logs.len() + 1,
            old(self).player.mp <= 0 ==> ({
                &&& final(self).bullets@ == old(self).bullets@
                &&& final(self).player.mp == old(self).player.mp
                &&& final(self)@.logs.last() == "not enough MP"@
            }),
            old(self).player.mp > 0 ==> ({
                &&& final(self).bullets@ == old(self).bullets@.push(
                    old(self)@.player.new_bullet(sx, sy),
                )
                &&& final(self).player.mp == old(self).player.mp - 1
                &&& final(self)@.logs.last() == shot_text(sx, sy)
            }),
    {
        if self.player.mp <= 0 {
            self.log(String::from_str("not enough MP"));
        } else {
            let bullet = self.player.new_bullet(sx, sy);
            self.bullets.push(bullet);
            let mut line = String::from_str("shoot pos=(");
            let x = two_decimals(sx);
            let y = two_decimals(sy);
            line.append(x.as_str());
            line.append(", ");
            line.append(y.as_str());
            line.append(")");
            self.log(line);
            self.player.mp = self.player.mp - 1;
        }
        self.player.skills.clear();
        assert(skill_names(self.player.skills@) =~= Seq::<Seq<char>>::empty());
    }

    /// Lets every bullet fly for `delta` nanoseconds, then lets the player
    /// take its hits: each enemy bullet that is now within the player's
    /// size of the player is flagged for removal and costs the player one
    /// hit point. The player's own bullets never hurt it.
    pub fn fly(&mut self, delta: u64)
        ensures
            final(self)@ == old(self)@.flown(delta),
    {
        advance_all(&mut self.bullets, delta);
        self.player.hp = sweep(
            &mut self.bullets,
            false,
            self.player.pos_x,
            self.player.pos_y,
            self.player.size,
            self.player.hp,
        );
    }

    /// The enemy's turn, if there is an enemy: it ticks, and then either
    /// dies and makes room for the next, or hands over its bullets and
    /// takes its hits.
    pub fn enemy_turn(&mut self, delta: u64)
        ensures
            final(self)@ == old(self)@.enemy_turn(delta),
            old(self).enemy is None ==> final(self)@ == old(self)@,
    {
        let on_stage = self.enemy.take();
        match on_stage {
            None => {},
            Some(mut enemy) => {
                let action = enemy.tick(delta, &self.player);
                match action {
                    EnemyAction::Die => {
                        let mut line = String::from_str("enemy ");
                        let number = decimal(self.stage_index as u64);
                        line.append(number.as_str());
                        line.append(" died.");
                        self.log(line);
                        if self.stage_index < usize::MAX {
                            self.stage_index = self.stage_index + 1;
                        }
                        self.enemy = create_enemy(self.stage_index);
                        keep_players_own(&mut self.bullets);
                    },
                    EnemyAction::Idle => {
                        let mut fired = enemy.bullets();
                        self.bullets.append(&mut fired);
                        enemy.hurt(&mut self.bullets);
                        self.enemy = Some(enemy);
                    },
                }
            },
        }
    }

    /// Steps the world by `delta` nanoseconds.
    ///
    /// The queued events are taken in the order in which they came: moves
    /// add up, and of several shots only the last counts. The player moves,
    /// then shoots if asked to. Every bullet flies, and the player takes its
    /// hits at the new positions. The enemy has its turn. At the end no
    /// flagged bullet is left in the pool.
    pub fn tick(&mut self, delta: u64)
        ensures
            final(self)@ == old(self)@.tick(delta),
            final(self).events@.len() == 0,
            none_flagged(final(self).bullets@),
            old(self).enemy is None ==> final(self).enemy is None && final(self).stage_index == old(
                self,
            ).stage_index,
            old(self)@.well_formed() ==> final(self)@.well_formed(),
    {
        proof {
            if self@.well_formed() {
                lemma_tick_keeps_well_formed(self@, delta);
            }
            lemma_tick_ends_clean(self@, delta);
            if self.enemy is None {
                lemma_without_enemy_nothing_is_fired(self@, delta);
            }
        }
        let intent = self.take_events();
        self.move_player(intent.move_x, intent.move_y, delta);
        match intent.shot {
            Some(target) => {
                self.shoot(target.0, target.1);
            },
            None => {},
        }
        self.fly(delta);
        self.enemy_turn(delta);
        prune(&mut self.bullets);
    }

    /// Half the height of the world that the canvas shows. The canvas must
    /// have a width.
    pub fn half_height(&self) -> (y_size: i64)
        requires
            self.canvas_rect.width > 0,
        ensures
            y_size == spec_half_height(self.world_width, self.canvas_rect),
    {
        let wide: i128 = self.world_width as i128;
        let rows: i128 = self.canvas_rect.height as i128 * CHAR_RATIO as i128;
        assert(-0x8000_0000_0000_0000 * 0x2_0000 <= wide * rows <= 0x8000_0000_0000_0000 * 0x2_0000
            && wide * rows == self.world_width * self.canvas_rect.height * CHAR_RATIO)
            by (nonlinear_arith)
            requires
                -0x8000_0000_0000_0000 <= wide <= 0x8000_0000_0000_0000,
                wide == self.world_width,
                0 <= rows <= 0x2_0000,
                rows == self.canvas_rect.height * CHAR_RATIO,
        ;
        saturate(round_quotient(wide * rows, self.canvas_rect.width as u128))
    }

    /// Takes a mouse event. A button that goes down starts a cast. A button
    /// that comes up queues a shot at the point of the world under the
    /// mouse, unless the canvas is empty.
    pub fn on_mouse_event(&mut self, evt: MouseEvent)
        ensures
            final(self)@ == old(self)@.mouse(evt),
            old(self)@.well_formed() ==> final(self)@.well_formed(),
    {
        match evt.kind {
            MouseEventKind::Down => {
                self.casting = true;
                self.log(String::from_str("casting..."));
            },
            MouseEventKind::Up => {
                let rect = self.canvas_rect;
                if rect.width != 0 && rect.height != 0 {
                    let x_size = self.world_width;
                    let y_size = self.half_height();
                    let click_x = map_range(
                        sat_sub(0, x_size),
                        x_size,
                        rect.x as i32,
                        rect.x as i32 + rect.width as i32,
                        evt.column as i32,
                    );
                    let click_y = map_range(
                        y_size,
                        sat_sub(0, y_size),
                        rect.y as i32,
                        rect.y as i32 + rect.height as i32,
                        evt.row as i32,
                    );
                    self.events.push(GameEvent::Shoot(click_x, click_y));
                }
            },
            MouseEventKind::Other => {},
        }
    }

    /// Set running to false to quit the application.
    pub fn quit(&mut self)
        ensures
            final(self)@ == (World { running: false, ..old(self)@ }),
    {
        self.running = false;
    }
}

/// A shot costs exactly one magic point and fires exactly one bullet; a
/// shot that cannot be paid for fires nothing and is answered by exactly
/// one line, `not enough MP`.
pub proof fn lemma_shot_is_paid_for(w: World, sx: i64, sy: i64)
    ensures
        w.shot(sx, sy).logs.len() == w.logs.len() + 1,
        w.player.mp <= 0 ==> ({
            &&& w.shot(sx, sy).bullets == w.bullets
            &&& w.shot(sx, sy).player.mp == w.player.mp
            &&& w.shot(sx, sy).logs == w.logs.push("not enough MP"@)
        }),
        w.player.mp > 0 ==> ({
            &&& w.shot(sx, sy).bullets.len() == w.bullets.len() + 1
            &&& w.shot(sx, sy).bullets == w.bullets.push(w.player.new_bullet(sx, sy))
            &&& w.shot(sx, sy).bullets.last().is_player
            &&& w.shot(sx, sy).player.mp == w.player.mp - 1
        }),
{
}

/// The player takes each hit. After the flight, every enemy bullet that
/// has come within the player's size of the player is flagged for removal,
/// and the player has lost exactly one hit point for each of them, however
/// many strike at once. The player's own bullets are neither flagged nor
/// counted.
pub proof fn lemma_player_takes_each_hit(w: World, delta: u64)
    ensures
        ({
            let p = w.player;
            let pool = advanced(w.bullets, delta);
            let hits = count_struck(pool, false, p.pos_x, p.pos_y, p.size);
            let after = w.flown(delta);
            &&& after.bullets.len() == w.bullets.len()
            &&& after.player.hp == drained(p.hp, hits)
            &&& p.hp - hits >= isize::MIN ==> after.player.hp == p.hp - hits
            &&& forall|i: int|
                #![trigger after.bullets[i]]
                0 <= i < w.bullets.len() ==> ({
                    &&& struck(pool[i], false, p.pos_x, p.pos_y, p.size)
                        ==> after.bullets[i].will_remove
                    &&& pool[i].is_player ==> after.bullets[i] == pool[i]
                })
        }),
{
    let p = w.player;
    let pool = advanced(w.bullets, delta);
    lemma_advanced_keeps_tags(w.bullets, delta);
    lemma_flag_struck_marks_hits(pool, false, p.pos_x, p.pos_y, p.size);
}

/// A tick ends clean: the queue of events is empty, and no bullet that is
/// flagged for removal is left in the pool. So a bullet that hit the player
/// or the enemy in this tick is gone at the end of it. The player's hit
/// points fall by one for each enemy bullet that strikes after the flight,
/// and by nothing else.
pub proof fn lemma_tick_ends_clean(w: World, delta: u64)
    ensures
        w.tick(delta).events == Seq::<GameEvent>::empty(),
        none_flagged(w.tick(delta).bullets),
        ({
            let intent = intent_of(w.events);
            let before = w.drained_events().moved(intent.move_x, intent.move_y, delta).maybe_shot(
                intent.shot,
            );
            let p = before.player;
            let pool = advanced(before.bullets, delta);
            &&& p.hp == w.player.hp
            &&& w.tick(delta).player.hp == drained(
                p.hp,
                count_struck(pool, false, p.pos_x, p.pos_y, p.size),
            )
        }),
{
    let intent = intent_of(w.events);
    let before = w.drained_events().moved(intent.move_x, intent.move_y, delta).maybe_shot(
        intent.shot,
    );
    let turned = before.flown(delta).enemy_turn(delta);
    lemma_live_is_clean(turned.bullets);
}

/// The death of an enemy ends its stage. The death is logged under the
/// number of the stage, the next stage begins, the enemy of that stage
/// enters, and every bullet that the player did not fire is gone. After the
/// last stage no enemy enters.
pub proof fn lemma_death_ends_stage(w: World, delta: u64)
    requires
        w.enemy is Some,
        w.enemy->0.body().hp <= 0,
    ensures
        ({
            let after = w.enemy_turn(delta);
            &&& after.logs == w.logs.push(death_text(w.stage_index))
            &&& after.stage_index == next_stage(w.stage_index)
            &&& after.enemy == spec_create_enemy(after.stage_index)
            &&& w.stage_index + 1 >= STAGES ==> after.enemy is None
            &&& after.bullets == of_player(w.bullets)
            &&& all_players_own(after.bullets)
            &&& after.player == w.player
        }),
{
    lemma_of_player_is_players(w.bullets);
}

/// Without an enemy the world is quiet. It stays without an enemy and at
/// its stage; the tick adds no bullet but the player's own shot; and a pool
/// that holds only the player's bullets keeps holding only those, which fly
/// on until they are removed.
pub proof fn lemma_without_enemy_nothing_is_fired(w: World, delta: u64)
    requires
        w.enemy is None,
    ensures
        w.tick(delta).enemy is None,
        w.tick(delta).stage_index == w.stage_index,
        w.tick(delta).bullets.len() <= w.bullets.len() + 1,
        all_players_own(w.bullets) ==> ({
            &&& all_players_own(w.tick(delta).bullets)
            &&& w.tick(delta).player.hp == w.player.hp
        }),
{
    let intent = intent_of(w.events);
    let before = w.drained_events().moved(intent.move_x, intent.move_y, delta).maybe_shot(
        intent.shot,
    );
    let p = before.player;
    let pool = advanced(before.bullets, delta);
    let flown = before.flown(delta);
    lemma_advanced_keeps_tags(before.bullets, delta);
    lemma_flag_struck_marks_hits(pool, false, p.pos_x, p.pos_y, p.size);
    lemma_live_is_clean(flown.bullets);
    if all_players_own(w.bullets) {
        assert(all_players_own(before.bullets));
        assert(all_players_own(pool));
        lemma_no_strike_no_loss(pool, p.pos_x, p.pos_y, p.size);
    }
}

/// A pool without enemy bullets cannot hit the player.
proof fn lemma_no_strike_no_loss(bullets: Seq<Bullet>, x: i64, y: i64, radius: i64)
    requires
        all_players_own(bullets),
    ensures
        count_struck(bullets, false, x, y, radius) == 0,
    decreases bullets.len(),
{
    reveal(Seq::filter);
    if bullets.len() > 0 {
        lemma_no_strike_no_loss(bullets.drop_last(), x, y, radius);
        assert(bullets.last().is_player);
    }
}

/// A step either leaves the facing as it was, or turns the player to face
/// in a direction of length one. So a player that faces in a direction
/// keeps doing so, wherever it walks.
pub proof fn lemma_facing_stays_a_direction(p: PlayerModel, delta_x: i64, delta_y: i64)
    ensures
        ({
            let q = p.walk(delta_x, delta_y);
            ||| (q.face_x == p.face_x && q.face_y == p.face_y)
            ||| is_unit(q.face_x, q.face_y)
        }),
        is_unit(p.face_x, p.face_y) ==> is_unit(
            p.walk(delta_x, delta_y).face_x,
            p.walk(delta_x, delta_y).face_y,
        ),
{
    if norm_sq(delta_x as int, delta_y as int) >= NORM_EPSILON_SQ {
        lemma_norm_is_unit(delta_x, delta_y);
    }
}

/// A game starts in order.
pub proof fn lemma_initial_is_well_formed()
    ensures
        World::initial().well_formed(),
{
    assert(norm_sq(1_000_000, 0) == 1_000_000_000_000) by (nonlinear_arith);
}

/// A tick keeps the world in order.
pub proof fn lemma_tick_keeps_well_formed(w: World, delta: u64)
    requires
        w.well_formed(),
    ensures
        w.tick(delta).well_formed(),
{
    let intent = intent_of(w.events);
    let speed = w.player.move_velocity;
    let moved = w.drained_events().moved(intent.move_x, intent.move_y, delta);
    lemma_facing_stays_a_direction(
        w.player,
        step(intent.move_x, speed, delta),
        step(intent.move_y, speed, delta),
    );
    let before = moved.maybe_shot(intent.shot);
    assert(none_flagged(before.bullets));
    assert(w.enemy is None ==> all_players_own(before.bullets));
    let p = before.player;
    let pool = advanced(before.bullets, delta);
    lemma_advanced_keeps_tags(before.bullets, delta);
    lemma_flag_struck_marks_hits(pool, false, p.pos_x, p.pos_y, p.size);
    let flown = before.flown(delta);
    let turned = flown.enemy_turn(delta);
    lemma_live_is_clean(turned.bullets);
    lemma_of_player_is_players(flown.bullets);
    if flown.enemy is Some {
        let e = flown.enemy->0;
        let after = e.tick(delta, p.pos_x, p.pos_y).0;
        let joined = flown.bullets + after.body().pending;
        lemma_enemy_stays_well_formed(e, delta, p.pos_x, p.pos_y, joined);
        lemma_enemy_stays_well_formed(after.emptied(), delta, p.pos_x, p.pos_y, joined);
    }
}

/// The mouse keeps the world in order.
pub proof fn lemma_mouse_keeps_well_formed(w: World, evt: MouseEvent)
    requires
        w.well_formed(),
    ensures
        w.mouse(evt).well_formed(),
{
}

/// Whether `after` is `before` but for the flag for removal, which is set
/// in `after` where it was set in `before`: the same bullet of the same
/// owner, hit perhaps.
pub open spec fn same_but_flag(before: Bullet, after: Bullet) -> bool {
    &&& after == Bullet { will_remove: after.will_remove, ..before }
    &&& before.will_remove ==> after.will_remove
}

/// The flight keeps every bullet in its place in the pool and changes no
/// owner, no velocity and clears no flag.
pub proof fn lemma_flight_keeps_owners(w: World, delta: u64)
    ensures
        w.flown(delta).bullets.len() == w.bullets.len(),
        forall|i: int|
            #![trigger w.flown(delta).bullets[i]]
            0 <= i < w.bullets.len() ==> same_but_flag(
                w.bullets[i].spec_advanced(delta),
                w.flown(delta).bullets[i],
            ),
        of_player(w.flown(delta).bullets).len() == of_player(w.bullets).len(),
{
    let p = w.player;
    let pool = advanced(w.bullets, delta);
    lemma_advanced_keeps_tags(w.bullets, delta);
    lemma_flag_struck_marks_hits(pool, false, p.pos_x, p.pos_y, p.size);
    lemma_same_owners_same_count(w.bullets, w.flown(delta).bullets);
}

/// The enemy's turn adds none of the player's bullets to the pool and
/// changes no owner. Where the enemy dies, what is left of the pool are
/// the player's bullets. Where it lives on, every bullet that was in the
/// pool keeps its place, its owner and a flag that was set, and what comes
/// behind them is the enemy's.
pub proof fn lemma_enemy_turn_keeps_owners(w: World, delta: u64)
    requires
        w.enemy is Some ==> w.enemy->0.well_formed(),
    ensures
        of_player(w.enemy_turn(delta).bullets).len() <= of_player(w.bullets).len(),
        w.enemy is None ==> w.enemy_turn(delta) == w,
        w.enemy is Some && w.enemy->0.body().hp <= 0 ==> w.enemy_turn(delta).bullets == of_player(
            w.bullets,
        ),
        w.enemy is Some && w.enemy->0.body().hp > 0 ==> ({
            let after = w.enemy_turn(delta).bullets;
            &&& after.len() >= w.bullets.len()
            &&& forall|i: int|
                0 <= i < w.bullets.len() ==> same_but_flag(w.bullets[i], #[trigger] after[i])
            &&& forall|i: int| w.bullets.len() <= i < after.len() ==> !(#[trigger] after[i]).is_player
            &&& of_player(after).len() == of_player(w.bullets).len()
        }),
{
    if w.enemy is Some {
        let e = w.enemy->0;
        let r = e.tick(delta, w.player.pos_x, w.player.pos_y);
        lemma_enemy_stays_well_formed(e, delta, w.player.pos_x, w.player.pos_y, w.bullets);
        if e.body().hp <= 0 {
            of_player(w.bullets).lemma_filter_len(crate::collision::players_own());
            assert(of_player(of_player(w.bullets)).len() <= of_player(w.bullets).len());
        } else {
            let fired = r.0.body().pending;
            let pool = w.bullets + fired;
            let after = w.enemy_turn(delta).bullets;
            lemma_flag_struck_marks_hits(
                pool,
                true,
                e.body().pos_x,
                e.body().pos_y,
                crate::battle::HIT_RADIUS,
            );
            assert(after == r.0.body().flag(pool));
            assert forall|i: int| w.bullets.len() <= i < after.len() implies !(
            #[trigger] after[i]).is_player by {
                assert(pool[i] == fired[i - w.bullets.len()]);
            }
            assert forall|i: int| 0 <= i < w.bullets.len() implies same_but_flag(
                w.bullets[i],
                #[trigger] after[i],
            ) by {
                assert(pool[i] == w.bullets[i]);
            }
            lemma_same_owners_same_count(pool, after);
            Seq::filter_distributes_over_add(w.bullets, fired, crate::collision::players_own());
            lemma_enemys_pool_has_no_players(fired);
        }
    }
}

/// A tick adds at most the one bullet of a paid shot to the player's
/// bullets in the pool, and none where no shot is asked for or the magic
/// points are used up.
pub proof fn lemma_tick_adds_only_the_shot(w: World, delta: u64)
    requires
        w.enemy is Some ==> w.enemy->0.well_formed(),
    ensures
        of_player(w.tick(delta).bullets).len() <= of_player(w.bullets).len() + 1,
        w.player.mp <= 0 || intent_of(w.events).shot is None ==> of_player(
            w.tick(delta).bullets,
        ).len() <= of_player(w.bullets).len(),
{
    let intent = intent_of(w.events);
    let moved = w.drained_events().moved(intent.move_x, intent.move_y, delta);
    let before = moved.maybe_shot(intent.shot);
    let flown = before.flown(delta);
    let turned = flown.enemy_turn(delta);
    if intent.shot is Some && w.player.mp > 0 {
        let target = intent.shot->0;
        w.bullets.lemma_filter_push(
            moved.player.new_bullet(target.0, target.1),
            crate::collision::players_own(),
        );
    }
    lemma_flight_keeps_owners(before, delta);
    lemma_enemy_turn_keeps_owners(flown, delta);
    lemma_pruning_adds_no_players(turned.bullets);
}

/// A paid shot is in the air at the end of the tick: the new bullet, flown
/// for the length of the tick, is in the pool, unless it has hit a living
/// enemy on its first flight already.
pub proof fn lemma_paid_shot_is_in_the_air(w: World, delta: u64)
    requires
        intent_of(w.events).shot is Some,
        w.player.mp > 0,
    ensures
        ({
            let intent = intent_of(w.events);
            let moved = w.drained_events().moved(intent.move_x, intent.move_y, delta);
            let target = intent.shot->0;
            let shot = moved.player.new_bullet(target.0, target.1).spec_advanced(delta);
            &&& shot.is_player
            &&& !shot.will_remove
            &&& w.tick(delta).player.mp == w.player.mp - 1
            &&& (w.enemy is None || w.enemy->0.body().hp <= 0 || !struck(
                shot,
                true,
                w.enemy->0.body().pos_x,
                w.enemy->0.body().pos_y,
                crate::battle::HIT_RADIUS,
            )) ==> w.tick(delta).bullets.contains(shot)
        }),
{
    let intent = intent_of(w.events);
    let moved = w.drained_events().moved(intent.move_x, intent.move_y, delta);
    let before = moved.maybe_shot(intent.shot);
    let target = intent.shot->0;
    let fresh = moved.player.new_bullet(target.0, target.1);
    let shot = fresh.spec_advanced(delta);
    let at = w.bullets.len() as int;
    assert(before.bullets[at] == fresh);
    let p = before.player;
    let pool = advanced(before.bullets, delta);
    lemma_advanced_keeps_tags(before.bullets, delta);
    lemma_flag_struck_marks_hits(pool, false, p.pos_x, p.pos_y, p.size);
    let flown = before.flown(delta);
    assert(flown.bullets[at] == shot);
    let turned = flown.enemy_turn(delta);
    if flown.enemy is None {
        lemma_kept_bullets(turned.bullets, at);
    } else {
        let e = flown.enemy->0;
        let r = e.tick(delta, p.pos_x, p.pos_y);
        lemma_hp_falls_only_by_hits(e, delta, p.pos_x, p.pos_y, flown.bullets);
        if e.body().hp <= 0 {
            lemma_kept_bullets(flown.bullets, at);
            let kept = of_player(flown.bullets);
            let j = choose|j: int| 0 <= j < kept.len() && kept[j] == shot;
            lemma_kept_bullets(kept, j);
        } else {
            let joined = flown.bullets + r.0.body().pending;
            lemma_flag_struck_marks_hits(
                joined,
                true,
                e.body().pos_x,
                e.body().pos_y,
                crate::battle::HIT_RADIUS,
            );
            assert(joined[at] == shot);
            if !struck(shot, true, e.body().pos_x, e.body().pos_y, crate::battle::HIT_RADIUS) {
                assert(turned.bullets[at] == shot);
                lemma_kept_bullets(turned.bullets, at);
            }
        }
    }
}

/// A bullet that hits the player in its flight is gone at the end of the
/// tick. Its flag, set in the flight, is still set after the enemy's turn,
/// unless the enemy has died and taken the bullet with it; and the pruning
/// leaves no flagged bullet.
pub proof fn lemma_hits_last_until_the_pruning(w: World, delta: u64, i: int)
    requires
        w.enemy is Some ==> w.enemy->0.well_formed(),
        0 <= i < w.bullets.len(),
        struck(
            w.bullets[i].spec_advanced(delta),
            false,
            w.player.pos_x,
            w.player.pos_y,
            w.player.size,
        ),
    ensures
        ({
            let flown = w.flown(delta);
            let turned = flown.enemy_turn(delta);
            &&& flown.bullets[i].will_remove
            &&& !flown.bullets[i].is_player
            &&& w.enemy is Some && w.enemy->0.body().hp <= 0 ==> all_players_own(turned.bullets)
            &&& !(w.enemy is Some && w.enemy->0.body().hp <= 0) ==> turned.bullets[i].will_remove
                && !turned.bullets[i].is_player
            &&& none_flagged(turned.pruned().bullets)
        }),
{
    let p = w.player;
    let pool = advanced(w.bullets, delta);
    lemma_advanced_keeps_tags(w.bullets, delta);
    lemma_flag_struck_marks_hits(pool, false, p.pos_x, p.pos_y, p.size);
    let flown = w.flown(delta);
    lemma_enemy_turn_keeps_owners(flown, delta);
    lemma_of_player_is_players(flown.bullets);
    let turned = flown.enemy_turn(delta);
    lemma_live_is_clean(turned.bullets);
    if flown.enemy is Some {
        lemma_hp_falls_only_by_hits(flown.enemy->0, delta, p.pos_x, p.pos_y, flown.bullets);
    }
}

} // verus!
