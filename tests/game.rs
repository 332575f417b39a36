use little_game::{
    collision_flags, enemy_spawn, Aabb, Enemy, Input, Laser, Player, Speed, SpriteSize, WinSize,
    World, SUBUNITS,
};

fn win() -> WinSize {
    WinSize { w: 300, h: 600 }
}

fn idle() -> Input {
    Input {
        left: false,
        right: false,
        up: false,
        down: false,
        turn_cw: false,
        turn_ccw: false,
        fire_held: false,
        fire_released: false,
    }
}

fn held() -> Input {
    Input { fire_held: true, ..idle() }
}

fn released() -> Input {
    Input { fire_released: true, ..idle() }
}

fn world() -> World {
    let mut w = World::new(win(), SpriteSize { w: 100, h: 500 }, SpriteSize { w: 100, h: 100 });
    w.player_spawn();
    w
}

fn units(steps: i64) -> f64 {
    steps as f64 / SUBUNITS as f64
}

#[test]
fn speed_default_rates() {
    let s = Speed::default();
    assert_eq!(s, Speed { vert: 500, horz: 500, rot: 1 });
}

#[test]
fn player_starts_above_bottom_edge() {
    let p = Player::spawn(&win());
    assert_eq!(p.x, 0);
    assert_eq!(p.y, -1_515_000);
    assert!((units(p.y) - (-300.0 + 47.5)).abs() < 1e-9);
    assert!(p.ready_fire);
    assert_eq!(p.speed, Speed { vert: 200, horz: 200, rot: 1 });
}

#[test]
fn holding_right_for_one_frame_moves_a_sixtieth_of_the_speed() {
    let mut w = world();
    w.frame(&Input { right: true, ..idle() }, false);
    let p = w.player.unwrap();
    assert_eq!(p.x, 20_000);
    assert!((units(p.x) - 200.0 / 60.0).abs() < 1e-9);
    assert!((units(p.x) - 3.33).abs() < 0.01);
    assert_eq!(p.y, -1_515_000);
}

#[test]
fn left_wins_over_right_and_up_over_down() {
    let mut p = Player::spawn(&win());
    let both = Input { left: true, right: true, up: true, down: true, turn_cw: true, turn_ccw: true, ..idle() };
    p.movement(&both);
    assert_eq!(p.x, -20_000);
    assert_eq!(p.y, -1_515_000 + 20_000);
    assert_eq!(p.angle, -100);
    p.movement(&Input { down: true, turn_ccw: true, ..idle() });
    assert_eq!(p.y, -1_515_000);
    assert_eq!(p.angle, 0);
}

#[test]
fn no_fire_held_keeps_trigger_ready() {
    let mut w = world();
    for _ in 0..30 {
        w.frame(&Input { left: true, ..idle() }, false);
        assert!(w.player.unwrap().ready_fire);
        assert!(w.lasers.is_empty());
    }
    w.frame(&released(), false);
    assert!(w.player.unwrap().ready_fire);
    assert!(w.lasers.is_empty());
}

#[test]
fn one_laser_per_uninterrupted_press() {
    let mut w = world();
    for _ in 0..10 {
        w.frame(&held(), false);
    }
    assert_eq!(w.lasers.len(), 1);
    assert!(!w.player.unwrap().ready_fire);
}

#[test]
fn press_release_press_fires_two_lasers() {
    let mut w = world();
    let mut fired = 0;
    let frames = [held(), held(), held(), released(), held(), held()];
    for f in frames.iter() {
        let mut p = w.player.unwrap();
        if p.fire(f).is_some() {
            fired += 1;
        }
        w.player = Some(p);
    }
    assert_eq!(fired, 2);
    let mut w = world();
    for f in frames.iter() {
        w.player_fire(f);
    }
    assert_eq!(w.lasers.len(), 2);
}

#[test]
fn laser_fired_from_ship_position() {
    let mut p = Player::spawn(&win());
    p.x = 1234;
    let shot = p.fire(&held()).unwrap();
    assert_eq!(shot, Laser { x: 1234, y: -1_515_000, speed: Speed::default() });
    assert!(!p.ready_fire);
    assert!(p.fire(&held()).is_none());
}

#[test]
fn release_while_other_control_held_rearms() {
    let mut p = Player::spawn(&win());
    let both = Input { fire_held: true, fire_released: true, ..idle() };
    assert!(p.fire(&both).is_some());
    assert!(p.ready_fire);
    assert!(p.fire(&both).is_some());
}

#[test]
fn laser_leaves_after_ceiling_of_distance_over_step() {
    let top = win().laser_limit_steps();
    assert_eq!(top, 600 * SUBUNITS);
    let y0 = -1_515_000i64;
    let step = 500 * 100;
    let expected = ((top - y0) + step - 1) / step;
    assert_eq!(expected, 103);
    let mut l = Laser::fired_from(0, y0);
    let mut frames = 0;
    loop {
        frames += 1;
        match l.advance(top) {
            Some(m) => {
                assert_eq!(m.y, y0 + frames * step);
                l = m;
            }
            None => break,
        }
    }
    assert_eq!(frames, expected);
}

#[test]
fn laser_exactly_on_limit_stays_one_more_frame() {
    let l = Laser::fired_from(0, 0);
    assert_eq!(l.advance(50_000).map(|m| m.y), Some(50_000));
    assert!(Laser::fired_from(0, 50_000).advance(50_000).is_none());
}

#[test]
fn world_removes_lasers_above_full_height() {
    let mut w = world();
    w.lasers.push(Laser::fired_from(0, 1_790_000));
    w.lasers.push(Laser::fired_from(1, 3_560_000));
    w.lasers.push(Laser::fired_from(5, 0));
    w.laser_movement();
    assert_eq!(
        w.lasers,
        vec![Laser::fired_from(0, 1_840_000), Laser::fired_from(5, 50_000)]
    );
}

#[test]
fn two_lasers_on_one_enemy_count_it_once() {
    let mut w = world();
    w.place_enemy(Enemy { x: 0, y: 0 });
    assert_eq!(w.active_enemies, 1);
    w.lasers.push(Laser::fired_from(0, 0));
    w.lasers.push(Laser::fired_from(1000, 1000));
    w.lasers.push(Laser::fired_from(0, 1_000_000));
    w.laser_enemy_collision();
    assert_eq!(w.active_enemies, 0);
    assert!(w.enemies.is_empty());
    assert_eq!(w.lasers, vec![Laser::fired_from(0, 1_000_000)]);
}

#[test]
fn laser_missing_enemy_leaves_both() {
    let mut w = world();
    w.place_enemy(Enemy { x: 0, y: 0 });
    w.lasers.push(Laser::fired_from(0, 500_000));
    w.laser_enemy_collision();
    assert_eq!(w.active_enemies, 1);
    assert_eq!(w.enemies.len(), 1);
    assert_eq!(w.lasers.len(), 1);
}

#[test]
fn boxes_touching_at_an_edge_do_not_collide() {
    let a = Aabb { x: 0, y: 0, w: 10, h: 10 };
    let b = Aabb { x: 10, y: 0, w: 10, h: 10 };
    let c = Aabb { x: 9, y: 9, w: 10, h: 10 };
    assert!(!a.collides(&b));
    assert!(a.collides(&c));
    assert!(c.collides(&a));
    let (l, e) = collision_flags(&vec![a, b], &vec![c]);
    assert_eq!(l, vec![true, true]);
    assert_eq!(e, vec![true]);
    let (l, e) = collision_flags(&vec![a], &vec![b]);
    assert_eq!(l, vec![false]);
    assert_eq!(e, vec![false]);
}

#[test]
fn enemy_appears_only_when_none_alive() {
    assert!(enemy_spawn(1, &win()).is_none());
    assert!(enemy_spawn(0, &win()).is_some());
    let mut w = world();
    w.enemy_spawn();
    assert_eq!(w.active_enemies, 1);
    assert_eq!(w.enemies.len(), 1);
    let first = w.enemies[0];
    w.enemy_spawn();
    assert_eq!(w.active_enemies, 1);
    assert_eq!(w.enemies, vec![first]);
}

#[test]
fn enemy_positions_stay_inside_margin() {
    let win = win();
    let span_x = (150 - 100) * SUBUNITS;
    let span_y = (300 - 100) * SUBUNITS;
    let mut xs = Vec::new();
    for _ in 0..500 {
        let e = enemy_spawn(0, &win).unwrap();
        assert!(-span_x <= e.x && e.x < span_x);
        assert!(-span_y <= e.y && e.y < span_y);
        xs.push(e.x);
    }
    assert!(xs.iter().any(|&x| x != -span_x));
    assert!(xs.iter().any(|&x| x > 0) && xs.iter().any(|&x| x < 0));
}

#[test]
fn enemy_count_never_above_one_over_many_frames() {
    let mut w = world();
    for i in 0..600 {
        let input = if i % 7 == 0 { released() } else { held() };
        w.frame(&input, i % 60 == 0);
        assert!(w.active_enemies <= 1);
        assert_eq!(w.active_enemies as usize, w.enemies.len());
    }
}

#[test]
fn window_spans_and_edges() {
    let w = win();
    assert_eq!(w.top_steps(), 1_800_000);
    assert_eq!(w.bottom_steps(), -1_800_000);
    assert_eq!(w.laser_limit_steps(), 3_600_000);
    assert_eq!(w.span_x_steps(), 300_000);
    assert_eq!(w.span_y_steps(), 1_200_000);
    assert!(w.is_spawnable());
    assert!(!WinSize { w: 200, h: 600 }.is_spawnable());
}

#[test]
fn sprite_boxes_are_scaled() {
    let l = Laser::fired_from(0, 0);
    assert_eq!(l.bounds(&SpriteSize { w: 100, h: 500 }), Aabb { x: 0, y: 0, w: 6000, h: 30000 });
    let e = Enemy { x: 3, y: 4 };
    assert_eq!(e.bounds(&SpriteSize { w: 100, h: 100 }), Aabb { x: 3, y: 4, w: 240_000, h: 240_000 });
}

