use normal_game_jam_2024::app::{Bullet, Player};
use normal_game_jam_2024::battle::lv0::EnemyLevel0;
use normal_game_jam_2024::battle::lv1::EnemyLevel1;
use normal_game_jam_2024::battle::lv2::{EnemyLevel2, State};
use normal_game_jam_2024::battle::{create_enemy, later, Enemy, EnemyAction};
use normal_game_jam_2024::fixed::SCALE;

const SECOND: u64 = 1_000_000_000;

fn player_at(x: i64, y: i64) -> Player {
    Player { pos_x: x, pos_y: y, ..Player::default() }
}

fn players_bullet_at(x: i64, y: i64) -> Bullet {
    Bullet { pos_x: x, pos_y: y, is_player: true, ..Bullet::default() }
}

fn velocities(bullets: &[Bullet]) -> Vec<(i64, i64)> {
    bullets.iter().map(|b| (b.velocity_x, b.velocity_y)).collect()
}

#[test]
fn timers_run_and_stay_full() {
    assert_eq!(later(0, 5), 5);
    assert_eq!(later(7, 0), 7);
    assert_eq!(later(u64::MAX - 1, 1), u64::MAX);
    assert_eq!(later(u64::MAX - 1, 2), u64::MAX);
    assert_eq!(later(u64::MAX, u64::MAX), u64::MAX);
}

#[test]
fn enemies_enter_with_ten_hit_points_at_thirty_thirty() {
    let e = EnemyLevel0::new();
    assert_eq!((e.hp(), e.pos(), e.timer()), (10, (30 * SCALE, 30 * SCALE), 0));
    let e = EnemyLevel1::new();
    assert_eq!((e.hp(), e.pos(), e.timer()), (10, (30 * SCALE, 30 * SCALE), 0));
    let e = EnemyLevel2::new();
    assert_eq!((e.hp(), e.pos(), e.timer()), (10, (30 * SCALE, 30 * SCALE), 0));
    assert_eq!(e.state(), State::Idle);
}

#[test]
fn level0_fires_one_bullet_every_two_seconds() {
    let p = player_at(0, 0);
    let mut e = EnemyLevel0::new();
    // exactly two seconds are not more than two seconds
    assert_eq!(e.tick(2 * SECOND, &p), EnemyAction::Idle);
    assert!(e.bullets().is_empty());
    assert_eq!(e.timer(), 2 * SECOND);
    assert_eq!(e.tick(1, &p), EnemyAction::Idle);
    assert_eq!(e.timer(), 0);
    let fired = e.bullets();
    assert_eq!(
        fired,
        vec![Bullet {
            pos_x: 28_232_233,
            pos_y: 28_232_233,
            velocity_x: -4_242_641,
            velocity_y: -4_242_641,
            is_player: false,
            will_remove: false,
        }]
    );
    // and again, in small steps
    let mut fired = 0;
    for _ in 0..61 {
        e.tick(SECOND / 30, &p);
        fired += e.bullets().len();
    }
    assert_eq!(fired, 1);
    for _ in 0..61 {
        e.tick(SECOND / 30, &p);
        fired += e.bullets().len();
    }
    assert_eq!(fired, 2);
}

#[test]
fn level0_aims_at_where_the_player_is_now() {
    let mut e = EnemyLevel0::new();
    e.tick(3 * SECOND, &player_at(30 * SCALE, 0));
    let fired = e.bullets();
    assert_eq!(fired.len(), 1);
    assert_eq!((fired[0].pos_x, fired[0].pos_y), (30 * SCALE, 27_500_000));
    assert_eq!((fired[0].velocity_x, fired[0].velocity_y), (0, -6 * SCALE));
    e.tick(3 * SECOND, &player_at(60 * SCALE, 30 * SCALE));
    let fired = e.bullets();
    assert_eq!((fired[0].pos_x, fired[0].pos_y), (32_500_000, 30 * SCALE));
    assert_eq!((fired[0].velocity_x, fired[0].velocity_y), (6 * SCALE, 0));
}

#[test]
fn bullets_are_handed_over_once() {
    let p = player_at(0, 0);
    let mut e = EnemyLevel0::new();
    e.tick(3 * SECOND, &p);
    e.tick(3 * SECOND, &p);
    assert_eq!(e.bullets().len(), 2);
    assert!(e.bullets().is_empty());
    assert!(e.bullets().is_empty());
}

#[test]
fn level1_fires_a_spread_of_three() {
    let p = player_at(0, 0);
    let mut e = EnemyLevel1::new();
    assert_eq!(e.tick(2 * SECOND, &p), EnemyAction::Idle);
    assert!(e.bullets().is_empty());
    assert_eq!(e.tick(1, &p), EnemyAction::Idle);
    assert_eq!(e.timer(), 0);
    let fired = e.bullets();
    assert_eq!(
        velocities(&fired),
        vec![(-4_242_641, -4_242_641), (-1_552_914, -5_795_555), (-5_795_555, -1_552_914)]
    );
    for b in &fired {
        assert_eq!((b.pos_x, b.pos_y), (28_232_233, 28_232_233));
        assert!(!b.is_player && !b.will_remove);
    }
}

#[test]
fn level1_spread_is_thirty_degrees_to_either_side() {
    let mut e = EnemyLevel1::new();
    // straight to the right
    e.tick(3 * SECOND, &player_at(60 * SCALE, 30 * SCALE));
    let fired = e.bullets();
    assert_eq!(velocities(&fired), vec![(6 * SCALE, 0), (5_196_152, 3_000_000), (5_196_152, -3_000_000)]);
    let angle = |b: &Bullet| (b.velocity_y as f64).atan2(b.velocity_x as f64).to_degrees();
    assert!((angle(&fired[0]) - 0.0).abs() < 1e-3);
    assert!((angle(&fired[1]) - 30.0).abs() < 1e-3);
    assert!((angle(&fired[2]) + 30.0).abs() < 1e-3);
}

#[test]
fn level2_rests_then_fires_three_staggered_rings() {
    let p = player_at(0, 0);
    let mut e = EnemyLevel2::new();
    e.tick(2 * SECOND, &p);
    assert_eq!(e.state(), State::Idle);
    e.tick(1, &p);
    assert_eq!((e.state(), e.timer()), (State::Shooting(0), 0));
    assert!(e.bullets().is_empty());

    // eight tenths of a second are not more than eight tenths
    e.tick(800_000_000, &p);
    assert_eq!(e.state(), State::Shooting(0));
    assert!(e.bullets().is_empty());
    e.tick(1, &p);
    assert_eq!((e.state(), e.timer()), (State::Shooting(1), 0));
    let ring = e.bullets();
    assert_eq!(
        velocities(&ring),
        vec![
            (-4_242_641, -4_242_641),
            (-1_552_914, -5_795_555),
            (1_552_914, -5_795_555),
            (4_242_641, -4_242_641),
            (5_795_555, -1_552_914),
            (5_795_555, 1_552_914),
            (4_242_641, 4_242_641),
            (1_552_914, 5_795_555),
            (-1_552_914, 5_795_555),
            (-4_242_641, 4_242_641),
            (-5_795_555, 1_552_914),
            (-5_795_555, -1_552_914),
        ]
    );
    for b in &ring {
        assert_eq!((b.pos_x, b.pos_y), (30 * SCALE, 30 * SCALE));
        assert!(!b.is_player && !b.will_remove);
    }

    e.tick(800_000_001, &p);
    assert_eq!(e.state(), State::Shooting(2));
    let ring = e.bullets();
    assert_eq!(
        velocities(&ring),
        vec![
            (-3_856_726, -4_596_267),
            (-1_041_889, -5_908_847),
            (2_052_121, -5_638_156),
            (4_596_267, -3_856_726),
            (5_908_847, -1_041_889),
            (5_638_156, 2_052_121),
            (3_856_726, 4_596_267),
            (1_041_889, 5_908_847),
            (-2_052_121, 5_638_156),
            (-4_596_267, 3_856_726),
            (-5_908_847, 1_041_889),
            (-5_638_156, -2_052_121),
        ]
    );

    e.tick(800_000_001, &p);
    assert_eq!(e.state(), State::Shooting(3));
    let ring = e.bullets();
    assert_eq!(
        velocities(&ring),
        vec![
            (-3_441_459, -4_914_913),
            (-522_934, -5_977_169),
            (2_535_710, -5_437_847),
            (4_914_913, -3_441_459),
            (5_977_169, -522_934),
            (5_437_847, 2_535_710),
            (3_441_459, 4_914_913),
            (522_934, 5_977_169),
            (-2_535_710, 5_437_847),
            (-4_914_913, 3_441_459),
            (-5_977_169, 522_934),
            (-5_437_847, -2_535_710),
        ]
    );

    // the burst is over: back to rest, without firing, whatever time passes
    e.tick(0, &p);
    assert_eq!(e.state(), State::Idle);
    assert!(e.bullets().is_empty());
    assert_eq!(e.timer(), 0);
}

#[test]
fn level2_rings_are_evenly_spaced() {
    let mut e = EnemyLevel2::new();
    let p = player_at(60 * SCALE, 30 * SCALE);
    e.tick(3 * SECOND, &p);
    for i in 0..3 {
        e.tick(SECOND, &p);
        let ring = e.bullets();
        assert_eq!(ring.len(), 12);
        for (k, b) in ring.iter().enumerate() {
            let want = (5 * i + 30 * k) as f64;
            let mut got = (b.velocity_y as f64).atan2(b.velocity_x as f64).to_degrees();
            if got < -1e-3 {
                got += 360.0;
            }
            assert!((got - want).abs() < 1e-3, "ring {} bullet {}: {}", i, k, got);
            let speed = ((b.velocity_x as f64).powi(2) + (b.velocity_y as f64).powi(2)).sqrt();
            assert!((speed - 6e6).abs() <= 0.75);
        }
    }
}

#[test]
fn level2_timer_runs_on_through_the_end_of_a_burst() {
    let p = player_at(0, 0);
    let mut e = EnemyLevel2::new();
    e.tick(3 * SECOND, &p);
    e.tick(SECOND, &p);
    e.tick(SECOND, &p);
    e.tick(SECOND, &p);
    assert_eq!((e.state(), e.timer()), (State::Shooting(3), 0));
    e.tick(3 * SECOND, &p);
    assert_eq!((e.state(), e.timer()), (State::Idle, 3 * SECOND));
    // the rest was long enough already
    e.tick(0, &p);
    assert_eq!((e.state(), e.timer()), (State::Shooting(0), 0));
}

#[test]
fn hurt_counts_the_players_bullets_within_three_units() {
    let mut e = EnemyLevel0::new();
    let mut pool = vec![
        players_bullet_at(30 * SCALE, 30 * SCALE),
        players_bullet_at(33 * SCALE, 30 * SCALE),
        players_bullet_at(33 * SCALE + 1, 30 * SCALE),
        Bullet { pos_x: 30 * SCALE, pos_y: 30 * SCALE, ..Bullet::default() },
        players_bullet_at(30 * SCALE, 27 * SCALE),
    ];
    e.hurt(&mut pool);
    assert_eq!(e.hp(), 7);
    let flags: Vec<bool> = pool.iter().map(|b| b.will_remove).collect();
    assert_eq!(flags, vec![true, true, false, false, true]);
    assert_eq!(pool.len(), 5);
}

#[test]
fn enemy_without_hit_points_dies_at_its_next_tick() {
    let p = player_at(0, 0);
    let mut pool = vec![players_bullet_at(30 * SCALE, 30 * SCALE)];
    for level in 0..3 {
        let mut e = create_enemy(level).unwrap();
        for left in (0..10).rev() {
            assert_eq!(e.tick(0, &p), EnemyAction::Idle);
            e.hurt(&mut pool);
            assert_eq!(e.hp(), left);
        }
        assert_eq!(e.tick(0, &p), EnemyAction::Die);
        assert_eq!(e.tick(5 * SECOND, &p), EnemyAction::Die);
        assert!(e.bullets().is_empty());
    }
}

#[test]
fn a_dying_enemy_does_not_fire() {
    let p = player_at(0, 0);
    let mut pool: Vec<Bullet> = (0..10).map(|_| players_bullet_at(30 * SCALE, 30 * SCALE)).collect();
    let mut e = EnemyLevel1::new();
    e.hurt(&mut pool);
    assert_eq!(e.hp(), 0);
    assert_eq!(e.tick(3 * SECOND, &p), EnemyAction::Die);
    assert!(e.bullets().is_empty());
    assert_eq!(e.timer(), 3 * SECOND);
}

#[test]
fn hit_points_go_below_zero() {
    let mut pool: Vec<Bullet> = (0..12).map(|_| players_bullet_at(30 * SCALE, 30 * SCALE)).collect();
    let mut e = EnemyLevel2::new();
    e.hurt(&mut pool);
    assert_eq!(e.hp(), -2);
    assert_eq!(e.tick(0, &player_at(0, 0)), EnemyAction::Die);
}

#[test]
fn the_factory_knows_three_stages() {
    assert!(matches!(create_enemy(0), Some(Enemy::Level0(_))));
    assert!(matches!(create_enemy(1), Some(Enemy::Level1(_))));
    assert!(matches!(create_enemy(2), Some(Enemy::Level2(_))));
    assert!(create_enemy(3).is_none());
    assert!(create_enemy(usize::MAX).is_none());
}

#[test]
fn the_enemy_on_stage_behaves_as_its_level() {
    let p = player_at(0, 0);
    let mut e = create_enemy(1).unwrap();
    assert_eq!((e.hp(), e.pos()), (10, (30 * SCALE, 30 * SCALE)));
    assert_eq!(e.tick(3 * SECOND, &p), EnemyAction::Idle);
    assert_eq!(e.bullets().len(), 3);
    assert!(e.bullets().is_empty());
    let mut e = create_enemy(2).unwrap();
    e.tick(3 * SECOND, &p);
    e.tick(SECOND, &p);
    assert_eq!(e.bullets().len(), 12);
}

#[test]
fn a_volley_at_a_player_straight_below() {
    let p = player_at(30 * SCALE, 0);
    let mut e = EnemyLevel1::new();
    e.tick(2_500_000_000, &p);
    let fired = e.bullets();
    assert_eq!(
        velocities(&fired),
        vec![(0, -6 * SCALE), (3_000_000, -5_196_152), (-3_000_000, -5_196_152)]
    );
    for b in &fired {
        assert_eq!((b.pos_x, b.pos_y), (30 * SCALE, 27_500_000));
    }

    let mut e = EnemyLevel2::new();
    e.tick(2_500_000_000, &p);
    assert!(e.bullets().is_empty());
    e.tick(SECOND, &p);
    let first = e.bullets();
    e.tick(SECOND, &p);
    let second = e.bullets();
    e.tick(SECOND, &p);
    let third = e.bullets();
    assert_eq!((first[0].velocity_x, first[0].velocity_y), (0, -6 * SCALE));
    assert_eq!((first[1].velocity_x, first[1].velocity_y), (3_000_000, -5_196_152));
    assert_eq!((first[3].velocity_x, first[3].velocity_y), (6 * SCALE, 0));
    assert_eq!((first[6].velocity_x, first[6].velocity_y), (0, 6 * SCALE));
    assert_eq!((second[0].velocity_x, second[0].velocity_y), (522_934, -5_977_168));
    assert_eq!((third[0].velocity_x, third[0].velocity_y), (1_041_889, -5_908_847));
    for ring in [&first, &second, &third] {
        assert_eq!(ring.len(), 12);
        let sum = ring.iter().fold((0, 0), |s, b| (s.0 + b.velocity_x, s.1 + b.velocity_y));
        assert_eq!(sum, (0, 0));
    }
}

#[test]
fn bullets_fly_at_six_units_a_second_however_near_the_player_stands() {
    // the player a hundredth of a unit from the enemy
    let p = player_at(30 * SCALE + 7_071, 30 * SCALE + 7_072);
    let speed = |b: &Bullet| (b.velocity_x as f64).hypot(b.velocity_y as f64);
    let mut e = EnemyLevel0::new();
    e.tick(3 * SECOND, &p);
    for b in e.bullets() {
        assert!((speed(&b) - 6e6).abs() <= 0.75);
    }
    assert_eq!(e.new_bullet(&p).velocity_x, 4_242_341);
    let e = EnemyLevel1::new();
    let volley = e.new_bullets(&p);
    assert_eq!(volley.len(), 3);
    for b in &volley {
        assert!((speed(b) - 6e6).abs() <= 1.5, "{:?}", b);
    }
    let e = EnemyLevel2::new();
    for stagger in [0, 5, 10] {
        let volley = e.new_bullets(&p, stagger);
        assert_eq!(volley.len(), 12);
        for b in &volley {
            assert!((speed(b) - 6e6).abs() <= 1.5, "{:?}", b);
            assert_eq!((b.pos_x, b.pos_y), (30 * SCALE, 30 * SCALE));
        }
    }
}
