use normal_game_jam_2024::app::Bullet;
use normal_game_jam_2024::collision::{advance_all, keep_players_own, prune, sweep};
use normal_game_jam_2024::fixed::SCALE;

fn bullet(x: i64, y: i64, vx: i64, vy: i64, is_player: bool) -> Bullet {
    Bullet { pos_x: x, pos_y: y, velocity_x: vx, velocity_y: vy, is_player, will_remove: false }
}

#[test]
fn rotated_turns_the_velocity_only() {
    let b = bullet(SCALE, 2 * SCALE, 6 * SCALE, 0, false);
    let r = b.rotated(90);
    assert_eq!(r, bullet(SCALE, 2 * SCALE, 0, 6 * SCALE, false));
    let r = b.rotated(30);
    assert_eq!((r.velocity_x, r.velocity_y), (5_196_152, 3_000_000));
    assert_eq!((r.pos_x, r.pos_y, r.is_player, r.will_remove), (SCALE, 2 * SCALE, false, false));
    // the bullet itself is not touched
    assert_eq!(b, bullet(SCALE, 2 * SCALE, 6 * SCALE, 0, false));
}

#[test]
fn rotated_keeps_owner_and_flag() {
    let mut b = bullet(0, 0, 0, -SCALE, true);
    b.will_remove = true;
    let r = b.rotated(-90);
    assert_eq!((r.velocity_x, r.velocity_y), (-SCALE, 0));
    assert!(r.is_player && r.will_remove);
}

#[test]
fn aimed_bullets_start_off_their_origin() {
    let b = Bullet::aimed(30 * SCALE, 30 * SCALE, 0, 0, 2_500_000, 6 * SCALE, false);
    assert_eq!(b, bullet(28_232_233, 28_232_233, -4_242_641, -4_242_641, false));
    let b = Bullet::aimed(30 * SCALE, 30 * SCALE, 0, 0, 0, 6 * SCALE, false);
    assert_eq!(b, bullet(30 * SCALE, 30 * SCALE, -4_242_641, -4_242_641, false));
}

#[test]
fn advance_integrates_the_velocity() {
    let mut b = bullet(SCALE, SCALE, 12 * SCALE, -6 * SCALE, true);
    b.advance(500_000_000);
    assert_eq!(b, bullet(7 * SCALE, -2 * SCALE, 12 * SCALE, -6 * SCALE, true));
    b.advance(0);
    assert_eq!(b, bullet(7 * SCALE, -2 * SCALE, 12 * SCALE, -6 * SCALE, true));
    b.advance(33_000_000);
    assert_eq!((b.pos_x, b.pos_y), (7_396_000, -2_198_000));
}

#[test]
fn advance_stops_at_the_end_of_the_world() {
    let mut b = bullet(i64::MAX - 10, i64::MIN + 10, SCALE, -SCALE, false);
    b.advance(1_000_000_000);
    assert_eq!((b.pos_x, b.pos_y), (i64::MAX, i64::MIN));
}

#[test]
fn advance_all_moves_every_bullet() {
    let mut pool = vec![bullet(0, 0, SCALE, 0, true), bullet(5, 5, 0, -2 * SCALE, false)];
    advance_all(&mut pool, 250_000_000);
    assert_eq!(pool, vec![bullet(250_000, 0, SCALE, 0, true), bullet(5, -499_995, 0, -2 * SCALE, false)]);
    let mut none: Vec<Bullet> = Vec::new();
    advance_all(&mut none, 250_000_000);
    assert!(none.is_empty());
}

#[test]
fn sweep_flags_and_counts_the_bullets_of_the_other_side() {
    let mut pool = vec![
        bullet(0, 0, 0, 0, false),                 // hits
        bullet(2 * SCALE, 0, 0, 0, false),         // on the rim: hits
        bullet(2 * SCALE + 1, 0, 0, 0, false),     // just outside
        bullet(0, 0, 0, 0, true),                  // the target's own
        bullet(-SCALE, SCALE, 0, 0, false),        // hits
    ];
    let left = sweep(&mut pool, false, 0, 0, 2 * SCALE, 100);
    assert_eq!(left, 97);
    let flags: Vec<bool> = pool.iter().map(|b| b.will_remove).collect();
    assert_eq!(flags, vec![true, true, false, false, true]);
    // nothing but the flags has changed, and nothing has left
    assert_eq!(pool.len(), 5);
    assert_eq!((pool[1].pos_x, pool[1].is_player), (2 * SCALE, false));
}

#[test]
fn sweep_counts_flagged_bullets_again() {
    let mut pool = vec![bullet(0, 0, 0, 0, true)];
    assert_eq!(sweep(&mut pool, true, 0, 0, SCALE, 10), 9);
    assert!(pool[0].will_remove);
    assert_eq!(sweep(&mut pool, true, 0, 0, SCALE, 9), 8);
}

#[test]
fn sweep_lets_hit_points_fall_below_zero() {
    let mut pool = vec![bullet(0, 0, 0, 0, false), bullet(0, 0, 0, 0, false)];
    assert_eq!(sweep(&mut pool, false, 0, 0, SCALE, 1), -1);
    assert_eq!(sweep(&mut pool, false, 0, 0, SCALE, isize::MIN + 1), isize::MIN);
}

#[test]
fn sweep_with_a_negative_radius_hits_nothing() {
    let mut pool = vec![bullet(0, 0, 0, 0, false)];
    assert_eq!(sweep(&mut pool, false, 0, 0, -1, 5), 5);
    assert!(!pool[0].will_remove);
}

#[test]
fn prune_drops_the_flagged_and_keeps_the_order() {
    let mut pool = vec![
        bullet(1, 0, 0, 0, true),
        bullet(2, 0, 0, 0, false),
        bullet(3, 0, 0, 0, true),
        bullet(4, 0, 0, 0, false),
    ];
    pool[1].will_remove = true;
    pool[2].will_remove = true;
    prune(&mut pool);
    assert_eq!(pool, vec![bullet(1, 0, 0, 0, true), bullet(4, 0, 0, 0, false)]);
    prune(&mut pool);
    assert_eq!(pool.len(), 2);
}

#[test]
fn keep_players_own_drops_the_enemys() {
    let mut pool = vec![
        bullet(1, 0, 0, 0, true),
        bullet(2, 0, 0, 0, false),
        bullet(3, 0, 0, 0, true),
        bullet(4, 0, 0, 0, false),
    ];
    pool[2].will_remove = true;
    keep_players_own(&mut pool);
    assert_eq!(pool.len(), 2);
    assert_eq!((pool[0].pos_x, pool[1].pos_x), (1, 3));
    assert!(pool[1].will_remove);
}
