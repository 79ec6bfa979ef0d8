use normal_game_jam_2024::app::{Bullet, Player, BULLET_OFFSET, BULLET_VELOCITY};
use normal_game_jam_2024::fixed::SCALE;

fn player_at(x: i64, y: i64) -> Player {
    Player { pos_x: x, pos_y: y, face_x: SCALE, mp: 50, hp: 100, ..Player::default() }
}

#[test]
fn walk_adds_the_step() {
    let mut p = player_at(SCALE, -SCALE);
    p.walk(198_000, 0);
    assert_eq!((p.pos_x, p.pos_y), (1_198_000, -SCALE));
    p.walk(-98_000, 500_000);
    assert_eq!((p.pos_x, p.pos_y), (1_100_000, -500_000));
}

#[test]
fn walk_turns_the_player_along_the_step() {
    let mut p = player_at(0, 0);
    p.walk(0, 198_000);
    assert_eq!((p.face_x, p.face_y), (0, SCALE));
    p.walk(-3 * SCALE, 4 * SCALE);
    assert_eq!((p.face_x, p.face_y), (-600_000, 800_000));
}

#[test]
fn walk_turns_the_player_on_the_falling_diagonal() {
    // the two components of this direction cancel each other
    let mut p = player_at(0, 0);
    p.walk(SCALE, -SCALE);
    assert_eq!((p.face_x, p.face_y), (707_107, -707_107));
}

#[test]
fn standing_still_keeps_the_facing() {
    let mut p = player_at(3, 4);
    p.walk(0, 5 * SCALE);
    let facing = (p.face_x, p.face_y);
    for _ in 0..10 {
        p.walk(0, 0);
        assert_eq!((p.face_x, p.face_y), facing);
        assert_eq!((p.pos_x, p.pos_y), (3, 4 + 5 * SCALE));
    }
}

#[test]
fn a_step_too_short_to_have_a_direction_keeps_the_facing() {
    let mut p = player_at(0, 0);
    p.walk(9_999, 0);
    assert_eq!((p.pos_x, p.pos_y), (9_999, 0));
    assert_eq!((p.face_x, p.face_y), (SCALE, 0));
    p.walk(0, -10_000);
    assert_eq!((p.face_x, p.face_y), (0, -SCALE));
}

#[test]
fn walk_stops_at_the_end_of_the_world() {
    let mut p = player_at(i64::MAX - 1, i64::MIN + 1);
    p.walk(5, -5);
    assert_eq!((p.pos_x, p.pos_y), (i64::MAX, i64::MIN));
}

#[test]
fn walk_leaves_the_rest_alone() {
    let mut p = player_at(0, 0);
    p.max_hp = 100;
    p.max_mp = 50;
    p.move_velocity = 6 * SCALE;
    p.size = 2 * SCALE;
    p.walk(SCALE, SCALE);
    assert_eq!((p.hp, p.max_hp, p.mp, p.max_mp), (100, 100, 50, 50));
    assert_eq!((p.move_velocity, p.size), (6 * SCALE, 2 * SCALE));
    assert!(p.skills.is_empty());
}

#[test]
fn new_bullet_flies_toward_the_target() {
    let p = player_at(0, 0);
    let b = p.new_bullet(10 * SCALE, 0);
    assert_eq!(
        b,
        Bullet {
            pos_x: BULLET_OFFSET,
            pos_y: 0,
            velocity_x: BULLET_VELOCITY,
            velocity_y: 0,
            is_player: true,
            will_remove: false,
        }
    );
    let b = p.new_bullet(3 * SCALE, 4 * SCALE);
    assert_eq!((b.pos_x, b.pos_y), (900_000, 1_200_000));
    assert_eq!((b.velocity_x, b.velocity_y), (7_200_000, 9_600_000));
}

#[test]
fn new_bullet_is_aimed_from_where_the_player_stands() {
    let p = player_at(5 * SCALE, 5 * SCALE);
    let b = p.new_bullet(5 * SCALE, -20 * SCALE);
    assert_eq!((b.pos_x, b.pos_y), (5 * SCALE, 5 * SCALE - BULLET_OFFSET));
    assert_eq!((b.velocity_x, b.velocity_y), (0, -BULLET_VELOCITY));
    assert!(b.is_player);
}

#[test]
fn new_bullet_at_the_players_own_feet_does_not_move() {
    let p = player_at(5 * SCALE, 5 * SCALE);
    let b = p.new_bullet(5 * SCALE, 5 * SCALE);
    assert_eq!((b.pos_x, b.pos_y), (5 * SCALE, 5 * SCALE));
    assert_eq!((b.velocity_x, b.velocity_y), (0, 0));
    assert!(b.is_player && !b.will_remove);
}
