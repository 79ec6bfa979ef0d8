use normal_game_jam_2024::app::{App, Bullet, GameEvent, GameLog, Rect};
use normal_game_jam_2024::battle::lv2::State;
use normal_game_jam_2024::battle::{create_enemy, Enemy};
use normal_game_jam_2024::fixed::SCALE;
use normal_game_jam_2024::skill::Skill;

const SECOND: u64 = 1_000_000_000;
const FRAME: u64 = 33_000_000;

fn enemy_bullet_at(x: i64, y: i64) -> Bullet {
    Bullet { pos_x: x, pos_y: y, ..Bullet::default() }
}

fn players_bullet_at(x: i64, y: i64) -> Bullet {
    Bullet { pos_x: x, pos_y: y, is_player: true, ..Bullet::default() }
}

fn lines(app: &App) -> Vec<&str> {
    app.logs.iter().map(|l| l.0.as_str()).collect()
}

fn enemy_hp(app: &App) -> isize {
    app.enemy.as_ref().unwrap().hp()
}

#[test]
fn a_new_world() {
    let app = App::new();
    assert!(app.running);
    assert!(!app.casting);
    assert_eq!(app.stage_index, 0);
    assert!(matches!(app.enemy, Some(Enemy::Level0(_))));
    assert!(app.logs.is_empty() && app.bullets.is_empty() && app.events.is_empty());
    assert_eq!(app.world_width, 100 * SCALE);
    assert_eq!(app.canvas_rect, Rect::default());
    let p = &app.player;
    assert_eq!((p.pos_x, p.pos_y, p.face_x, p.face_y), (0, 0, SCALE, 0));
    assert_eq!((p.hp, p.max_hp, p.mp, p.max_mp), (100, 100, 50, 50));
    assert_eq!((p.move_velocity, p.size), (6 * SCALE, 2 * SCALE));
    assert!(p.skills.is_empty());
}

#[test]
fn default_is_the_new_world() {
    let app = App::default();
    assert_eq!((app.player.hp, app.player.mp, app.stage_index), (100, 50, 0));
    assert!(matches!(app.enemy, Some(Enemy::Level0(_))));
}

#[test]
fn quit_stops_the_world() {
    let mut app = App::new();
    app.quit();
    assert!(!app.running);
    assert_eq!((app.player.hp, app.stage_index), (100, 0));
}

#[test]
fn an_idle_tick_changes_nothing_but_the_enemys_timer() {
    let mut app = App::new();
    app.tick(FRAME);
    assert_eq!((app.player.pos_x, app.player.pos_y), (0, 0));
    assert_eq!((app.player.face_x, app.player.face_y), (SCALE, 0));
    assert_eq!((app.player.hp, app.player.mp), (100, 50));
    assert!(app.bullets.is_empty() && app.logs.is_empty() && app.events.is_empty());
    assert_eq!(app.stage_index, 0);
    match &app.enemy {
        Some(Enemy::Level0(e)) => assert_eq!(e.timer(), FRAME),
        _ => panic!("the first enemy is gone"),
    }
}

#[test]
fn moves_add_up_and_scale_with_speed_and_time() {
    let mut app = App::new();
    app.events.push(GameEvent::PlayerMove(SCALE, 0));
    app.tick(FRAME);
    assert_eq!((app.player.pos_x, app.player.pos_y), (198_000, 0));
    assert!(app.events.is_empty());

    // two keys at once
    app.events.push(GameEvent::PlayerMove(SCALE, 0));
    app.events.push(GameEvent::PlayerMove(0, SCALE));
    app.tick(FRAME);
    assert_eq!((app.player.pos_x, app.player.pos_y), (396_000, 198_000));
    assert_eq!((app.player.face_x, app.player.face_y), (707_107, 707_107));

    // opposite keys cancel, and the facing stays
    app.events.push(GameEvent::PlayerMove(SCALE, 0));
    app.events.push(GameEvent::PlayerMove(-SCALE, 0));
    app.tick(FRAME);
    assert_eq!((app.player.pos_x, app.player.pos_y), (396_000, 198_000));
    assert_eq!((app.player.face_x, app.player.face_y), (707_107, 707_107));

    // the same key twice moves twice as far
    app.events.push(GameEvent::PlayerMove(0, -SCALE));
    app.events.push(GameEvent::PlayerMove(0, -SCALE));
    app.tick(FRAME);
    assert_eq!((app.player.pos_x, app.player.pos_y), (396_000, 198_000 - 396_000));
    assert_eq!((app.player.face_x, app.player.face_y), (0, -SCALE));
}

#[test]
fn no_time_no_move() {
    let mut app = App::new();
    app.events.push(GameEvent::PlayerMove(SCALE, 0));
    app.tick(0);
    assert_eq!((app.player.pos_x, app.player.pos_y), (0, 0));
    assert!(app.events.is_empty());
}

#[test]
fn take_events_sums_moves_and_keeps_the_last_shot() {
    let mut app = App::new();
    app.events.push(GameEvent::Shoot(1, 2));
    app.events.push(GameEvent::PlayerMove(5, -1));
    app.events.push(GameEvent::Shoot(3, 4));
    app.events.push(GameEvent::PlayerMove(2, -1));
    let intent = app.take_events();
    assert_eq!((intent.move_x, intent.move_y), (7, -2));
    assert_eq!(intent.shot, Some((3, 4)));
    assert!(app.events.is_empty());
    let intent = app.take_events();
    assert_eq!((intent.move_x, intent.move_y, intent.shot), (0, 0, None));
}

#[test]
fn a_shot_costs_one_mp_and_fires_one_bullet() {
    let mut app = App::new();
    app.events.push(GameEvent::Shoot(10 * SCALE, 0));
    app.tick(0);
    assert_eq!(app.player.mp, 49);
    assert_eq!(
        app.bullets,
        vec![Bullet {
            pos_x: 1_500_000,
            pos_y: 0,
            velocity_x: 12 * SCALE,
            velocity_y: 0,
            is_player: true,
            will_remove: false,
        }]
    );
    assert_eq!(lines(&app), vec!["shoot pos=(10.00, 0.00)"]);
}

#[test]
fn a_shot_is_fired_after_the_move_and_flies_in_the_same_tick() {
    let mut app = App::new();
    app.events.push(GameEvent::PlayerMove(0, SCALE));
    app.events.push(GameEvent::Shoot(10 * SCALE, 198_000));
    app.tick(FRAME);
    assert_eq!((app.player.pos_x, app.player.pos_y), (0, 198_000));
    assert_eq!(app.bullets.len(), 1);
    // 1.5 units in front of the player, then 33 ms at 12 units per second
    assert_eq!((app.bullets[0].pos_x, app.bullets[0].pos_y), (1_500_000 + 396_000, 198_000));
}

#[test]
fn only_the_last_shot_of_a_tick_counts() {
    let mut app = App::new();
    app.events.push(GameEvent::Shoot(10 * SCALE, 0));
    app.events.push(GameEvent::Shoot(0, 10 * SCALE));
    app.events.push(GameEvent::Shoot(0, -10 * SCALE));
    app.tick(0);
    assert_eq!(app.player.mp, 49);
    assert_eq!(app.bullets.len(), 1);
    assert_eq!((app.bullets[0].velocity_x, app.bullets[0].velocity_y), (0, -12 * SCALE));
    assert_eq!(lines(&app), vec!["shoot pos=(0.00, -10.00)"]);
}

#[test]
fn without_mp_nothing_is_fired() {
    let mut app = App::new();
    app.player.mp = 0;
    app.events.push(GameEvent::Shoot(10 * SCALE, 0));
    app.tick(FRAME);
    assert_eq!(app.player.mp, 0);
    assert!(app.bullets.is_empty());
    assert_eq!(lines(&app), vec!["not enough MP"]);

    app.player.mp = -3;
    app.events.push(GameEvent::Shoot(10 * SCALE, 0));
    app.events.push(GameEvent::Shoot(10 * SCALE, 0));
    app.tick(FRAME);
    assert_eq!(app.player.mp, -3);
    assert!(app.bullets.is_empty());
    assert_eq!(lines(&app), vec!["not enough MP", "not enough MP"]);
}

#[test]
fn the_last_mp_can_be_spent() {
    let mut app = App::new();
    app.player.mp = 1;
    app.shoot(0, 5 * SCALE);
    assert_eq!((app.player.mp, app.bullets.len()), (0, 1));
    app.shoot(0, 5 * SCALE);
    assert_eq!((app.player.mp, app.bullets.len()), (0, 1));
    assert_eq!(lines(&app), vec!["shoot pos=(0.00, 5.00)", "not enough MP"]);
}

#[test]
fn a_shot_uses_up_the_queued_skills() {
    let mut app = App::new();
    app.player.skills.push(Skill { name: "Python".to_string() });
    app.tick(FRAME);
    assert_eq!(app.player.skills.len(), 1);
    app.events.push(GameEvent::Shoot(SCALE, SCALE));
    app.tick(FRAME);
    assert!(app.player.skills.is_empty());

    app.player.mp = 0;
    app.player.skills.push(Skill { name: "Python".to_string() });
    app.events.push(GameEvent::Shoot(SCALE, SCALE));
    app.tick(FRAME);
    assert!(app.player.skills.is_empty());
}

#[test]
fn the_shot_line_shows_two_decimals() {
    let mut app = App::new();
    app.shoot(-50 * SCALE, 30 * SCALE);
    app.shoot(1_234_567, -7_005_000);
    assert_eq!(
        app.logs,
        vec![
            GameLog("shoot pos=(-50.00, 30.00)".to_string()),
            GameLog("shoot pos=(1.23, -7.01)".to_string()),
        ]
    );
}

#[test]
fn bullets_fly_each_tick() {
    let mut app = App::new();
    app.bullets.push(Bullet { velocity_x: 6 * SCALE, velocity_y: -12 * SCALE, ..players_bullet_at(0, 0) });
    app.tick(SECOND / 2);
    assert_eq!((app.bullets[0].pos_x, app.bullets[0].pos_y), (3 * SCALE, -6 * SCALE));
    app.tick(SECOND / 2);
    assert_eq!((app.bullets[0].pos_x, app.bullets[0].pos_y), (6 * SCALE, -12 * SCALE));
}

#[test]
fn an_enemy_bullet_that_reaches_the_player_hurts_and_goes() {
    let mut app = App::new();
    // one second away from the rim of the player
    app.bullets.push(Bullet { velocity_x: -6 * SCALE, ..enemy_bullet_at(8 * SCALE + 1, 0) });
    app.tick(SECOND);
    assert_eq!(app.player.hp, 100);
    assert_eq!(app.bullets.len(), 1);
    app.tick(1);
    assert_eq!(app.player.hp, 100);
    app.tick(SECOND / 1000);
    assert_eq!(app.player.hp, 99);
    assert!(app.bullets.is_empty());
}

#[test]
fn each_of_several_hits_costs_one_hit_point() {
    let mut app = App::new();
    app.bullets.push(enemy_bullet_at(0, 0));
    app.bullets.push(enemy_bullet_at(2 * SCALE, 0));
    app.bullets.push(enemy_bullet_at(2 * SCALE + 1, 0));
    app.bullets.push(enemy_bullet_at(0, -2 * SCALE));
    app.bullets.push(enemy_bullet_at(-SCALE, SCALE));
    app.tick(FRAME);
    assert_eq!(app.player.hp, 96);
    assert_eq!(app.bullets, vec![enemy_bullet_at(2 * SCALE + 1, 0)]);
}

#[test]
fn the_players_own_bullets_do_not_hurt_it() {
    let mut app = App::new();
    app.bullets.push(players_bullet_at(0, 0));
    app.bullets.push(players_bullet_at(SCALE, SCALE));
    app.tick(FRAME);
    assert_eq!(app.player.hp, 100);
    assert_eq!(app.bullets.len(), 2);
}

#[test]
fn hits_are_taken_where_the_player_stands_after_its_move() {
    let mut app = App::new();
    app.bullets.push(enemy_bullet_at(8 * SCALE, 0));
    app.events.push(GameEvent::PlayerMove(SCALE, 0));
    // one second at six units per second brings the player to (6, 0)
    app.tick(SECOND);
    assert_eq!(app.player.pos_x, 6 * SCALE);
    assert_eq!(app.player.hp, 99);
    assert!(app.bullets.is_empty());
}

#[test]
fn hit_points_are_not_held_at_zero() {
    let mut app = App::new();
    app.player.hp = 1;
    app.bullets.push(enemy_bullet_at(0, 0));
    app.bullets.push(enemy_bullet_at(0, 0));
    app.tick(FRAME);
    assert_eq!(app.player.hp, -1);
}

#[test]
fn the_enemys_bullets_join_the_pool() {
    let mut app = App::new();
    app.tick(2 * SECOND);
    assert!(app.bullets.is_empty());
    app.tick(1);
    assert_eq!(
        app.bullets,
        vec![Bullet {
            pos_x: 28_232_233,
            pos_y: 28_232_233,
            velocity_x: -4_242_641,
            velocity_y: -4_242_641,
            is_player: false,
            will_remove: false,
        }]
    );
    // once in the pool, they fly
    app.tick(SECOND);
    assert_eq!((app.bullets[0].pos_x, app.bullets[0].pos_y), (23_989_592, 23_989_592));
}

#[test]
fn the_players_bullets_hurt_the_enemy_and_go() {
    let mut app = App::new();
    app.bullets.push(players_bullet_at(30 * SCALE, 30 * SCALE));
    app.bullets.push(players_bullet_at(33 * SCALE, 30 * SCALE));
    app.bullets.push(players_bullet_at(33 * SCALE + 1, 30 * SCALE));
    app.bullets.push(enemy_bullet_at(30 * SCALE, 30 * SCALE));
    app.tick(0);
    assert_eq!(enemy_hp(&app), 8);
    assert_eq!(
        app.bullets,
        vec![players_bullet_at(33 * SCALE + 1, 30 * SCALE), enemy_bullet_at(30 * SCALE, 30 * SCALE)]
    );
    assert_eq!(app.player.hp, 100);
}

#[test]
fn a_shot_across_the_stage_hits_the_enemy() {
    let mut app = App::new();
    app.events.push(GameEvent::Shoot(30 * SCALE, 30 * SCALE));
    app.tick(FRAME);
    assert_eq!(app.bullets.len(), 1);
    let mut frames = 0;
    while enemy_hp(&app) == 10 {
        app.tick(FRAME);
        frames += 1;
        assert!(frames < 200, "the bullet went past the enemy");
    }
    assert_eq!(enemy_hp(&app), 9);
    // the bullet is gone; what is left are the enemy's
    assert!(app.bullets.iter().all(|b| !b.is_player));
    // 42.4 units less 1.5 and less the hit radius of 3, at 12 units per second
    assert!(frames >= 94 && frames <= 97, "{} frames", frames);
}

fn kill_the_enemy(app: &mut App) {
    let (x, y) = app.enemy.as_ref().unwrap().pos();
    for _ in 0..10 {
        app.bullets.push(players_bullet_at(x, y));
    }
    app.tick(0);
    assert_eq!(enemy_hp(app), 0);
}

#[test]
fn the_death_of_an_enemy_brings_the_next_stage() {
    let mut app = App::new();
    app.bullets.push(enemy_bullet_at(50 * SCALE, 50 * SCALE));
    app.bullets.push(players_bullet_at(-50 * SCALE, 50 * SCALE));
    kill_the_enemy(&mut app);
    // the enemy is still on stage until it reports its death
    assert_eq!(app.stage_index, 0);
    assert!(matches!(app.enemy, Some(Enemy::Level0(_))));
    assert_eq!(app.bullets.len(), 2);

    app.tick(0);
    assert_eq!(app.stage_index, 1);
    assert!(matches!(app.enemy, Some(Enemy::Level1(_))));
    assert_eq!(enemy_hp(&app), 10);
    assert_eq!(lines(&app), vec!["enemy 0 died."]);
    // the enemy's bullets vanish with it
    assert_eq!(app.bullets, vec![players_bullet_at(-50 * SCALE, 50 * SCALE)]);
}

#[test]
fn a_dying_enemy_takes_its_unfired_volley_with_it() {
    let mut app = App::new();
    kill_the_enemy(&mut app);
    app.tick(3 * SECOND);
    assert_eq!(app.stage_index, 1);
    assert!(app.bullets.is_empty());
}

#[test]
fn after_the_last_stage_there_is_no_enemy() {
    let mut app = App::new();
    kill_the_enemy(&mut app);
    app.tick(FRAME);
    assert!(matches!(app.enemy, Some(Enemy::Level1(_))));
    kill_the_enemy(&mut app);
    app.tick(FRAME);
    assert_eq!(app.stage_index, 2);
    match &app.enemy {
        Some(Enemy::Level2(e)) => assert_eq!(e.state(), State::Idle),
        _ => panic!("the third enemy did not enter"),
    }
    // let the last enemy fire a ring first
    app.tick(3 * SECOND);
    app.tick(SECOND);
    assert_eq!(app.bullets.len(), 12);
    app.events.push(GameEvent::Shoot(0, -50 * SCALE));
    kill_the_enemy(&mut app);
    app.tick(FRAME);

    assert!(app.enemy.is_none());
    assert_eq!(app.stage_index, 3);
    assert_eq!(lines(&app).last(), Some(&"enemy 2 died."));
    assert_eq!(app.bullets.len(), 1);
    assert!(app.bullets[0].is_player);

    // from now on the world is quiet
    let logged = app.logs.len();
    let mut before = app.bullets[0];
    for _ in 0..300 {
        app.tick(FRAME);
        assert!(app.enemy.is_none());
        assert_eq!(app.stage_index, 3);
        assert_eq!(app.logs.len(), logged);
        assert_eq!(app.player.hp, 100);
        assert_eq!(app.bullets.len(), 1);
        assert_eq!(app.bullets[0].pos_y, before.pos_y - 396_000);
        before = app.bullets[0];
    }
}

#[test]
fn a_world_without_an_enemy_still_moves_and_shoots() {
    let mut app = App::new();
    app.stage_index = 3;
    app.enemy = create_enemy(3);
    assert!(app.enemy.is_none());
    app.bullets.push(enemy_bullet_at(0, 0));
    app.events.push(GameEvent::PlayerMove(0, SCALE));
    app.events.push(GameEvent::Shoot(0, 10 * SCALE));
    app.tick(SECOND);
    assert_eq!((app.player.pos_x, app.player.pos_y), (0, 6 * SCALE));
    assert_eq!(app.player.mp, 49);
    assert_eq!(app.player.hp, 100);
    assert_eq!(app.bullets.len(), 2);
    assert_eq!(app.stage_index, 3);
}

#[test]
fn no_flagged_bullet_outlives_a_tick() {
    let mut app = App::new();
    let mut flagged = players_bullet_at(80 * SCALE, 80 * SCALE);
    flagged.will_remove = true;
    app.bullets.push(flagged);
    app.bullets.push(players_bullet_at(80 * SCALE, 80 * SCALE));
    app.tick(0);
    assert_eq!(app.bullets, vec![players_bullet_at(80 * SCALE, 80 * SCALE)]);
}

#[test]
fn a_whole_fight() {
    let mut app = App::new();
    let mut frames = 0;
    while app.enemy.is_some() {
        let (x, y) = app.enemy.as_ref().unwrap().pos();
        if frames % 10 == 0 {
            app.events.push(GameEvent::Shoot(x, y));
        }
        // step aside, out of the line of fire
        app.events.push(GameEvent::PlayerMove(SCALE, -SCALE));
        app.tick(FRAME);
        frames += 1;
        assert!(frames < 5_000, "the fight does not end");
        assert!(app.bullets.iter().all(|b| !b.will_remove));
    }
    assert_eq!(app.stage_index, 3);
    // thirty hits were needed, and each shot cost one point
    assert!(app.player.mp <= 50 - 30);
    let shots = lines(&app).into_iter().filter(|l| l.starts_with("shoot")).count();
    assert_eq!(shots as isize, 50 - app.player.mp);
    let deaths: Vec<&str> = lines(&app).into_iter().filter(|l| l.starts_with("enemy")).collect();
    assert_eq!(deaths, vec!["enemy 0 died.", "enemy 1 died.", "enemy 2 died."]);
}

#[test]
fn the_stage_counter_stops_where_the_machine_does() {
    let mut app = App::new();
    app.stage_index = usize::MAX;
    kill_the_enemy(&mut app);
    app.tick(FRAME);
    assert_eq!(app.stage_index, usize::MAX);
    assert!(app.enemy.is_none());
    assert_eq!(lines(&app).last().unwrap().to_string(), format!("enemy {} died.", usize::MAX));
}

#[test]
fn the_world_stays_in_order_through_a_fight() {
    let mut app = App::new();
    let mut frames: u64 = 0;
    while frames < 3_000 {
        if let Some(enemy) = &app.enemy {
            let (x, y) = enemy.pos();
            if frames % 7 == 0 {
                app.events.push(GameEvent::Shoot(x, y));
            }
        }
        if frames % 50 < 25 {
            app.events.push(GameEvent::PlayerMove(-SCALE, 0));
        } else {
            app.events.push(GameEvent::PlayerMove(0, SCALE));
        }
        if app.player.mp == 0 {
            app.player.mp = 50;
        }
        app.tick(FRAME);
        frames += 1;

        // the facing is a direction
        let f = (app.player.face_x as f64).hypot(app.player.face_y as f64);
        assert!(f >= 999_997.0 && f <= 1_000_100.0);
        // the enemy on stage is the one of the stage
        match (&app.enemy, app.stage_index) {
            (Some(Enemy::Level0(_)), 0) | (Some(Enemy::Level1(_)), 1) | (None, 3) => {}
            (Some(Enemy::Level2(e)), 2) => match e.state() {
                State::Idle => {}
                State::Shooting(fired) => assert!(fired <= 3),
            },
            _ => panic!("stage {} with the wrong enemy", app.stage_index),
        }
        assert!(app.events.is_empty());
        assert!(app.bullets.iter().all(|b| !b.will_remove));
        if app.enemy.is_none() {
            assert!(app.bullets.iter().all(|b| b.is_player));
        }
    }
    assert!(app.enemy.is_none());
}

#[test]
fn several_keys_at_once_make_one_step() {
    let mut app = App::new();
    for _ in 0..3 {
        app.events.push(GameEvent::PlayerMove(SCALE, 0));
    }
    app.tick(16_666_583);
    assert_eq!((app.player.pos_x, app.player.pos_y), (299_998, 0));
}
