use topdown_shooter::animations::Sprite;
use topdown_shooter::camera::{camera_follow_player, MainCamera};
use topdown_shooter::constants::{
    BG_COLOR, GUN_FIRE_RATE, NUM_WORLD_DECORATIONS, UNIT, WORLD_H, WORLD_W,
};
use topdown_shooter::gui::{format_debug_text, update_debug_text};
use topdown_shooter::gun::{Bullet, Gun};
use topdown_shooter::player::Player;
use topdown_shooter::random::random_position;
use topdown_shooter::resources::{CursorPos, PlayerHealth};
use topdown_shooter::state::GameState;
use topdown_shooter::timer::{Timer, TimerMode};
use topdown_shooter::vector::{Carry, Vec2, Vec3};
use topdown_shooter::world::{
    despawn_all_game_entities, init_world, spawn_world_decoration, Decoration,
};

#[test]
fn a_game_starts_by_loading() {
    assert_eq!(GameState::default(), GameState::Loading);
}

#[test]
fn init_world_brings_the_player_and_the_gun() {
    let mut player: Option<Player> = None;
    let mut gun: Option<Gun> = None;
    let mut health = PlayerHealth { value: 3 };
    let next = init_world(&mut player, &mut gun, &mut health);
    assert_eq!(next, GameState::InGame);
    assert_eq!(player, Some(Player::new()));
    assert_eq!(gun, Some(Gun::new(GUN_FIRE_RATE)));
    assert_eq!(health.value, 100);
    assert_eq!(player.unwrap().position, Vec3 { x: 0, y: 0, z: 3 });
    assert_eq!(gun.unwrap().position, Vec3 { x: 0, y: 0, z: 3 });
}

#[test]
fn init_world_replaces_what_was_left_of_the_last_game() {
    let mut moved = Player::new();
    moved.position.x = 77;
    let mut player = Some(moved);
    let mut gun: Option<Gun> = None;
    let mut health = PlayerHealth { value: -4 };
    init_world(&mut player, &mut gun, &mut health);
    assert_eq!(player, Some(Player::new()));
    assert_eq!(health, PlayerHealth::new());
}

#[test]
fn decorations_are_scattered_over_the_world() {
    let mut decorations: Vec<Decoration> = Vec::new();
    spawn_world_decoration(&mut decorations, NUM_WORLD_DECORATIONS, WORLD_W, WORLD_H);
    assert_eq!(decorations.len(), 1000);
    for d in &decorations {
        assert!(-WORLD_W <= d.position.x && d.position.x < WORLD_W);
        assert!(-WORLD_H <= d.position.y && d.position.y < WORLD_H);
        assert_eq!(d.position.z, 1);
        assert!(d.frame <= 1);
    }
    assert!(decorations.iter().any(|d| d.position != decorations[0].position));
    assert!(decorations.iter().any(|d| d.frame == 0));
    assert!(decorations.iter().any(|d| d.frame == 1));
}

#[test]
fn new_decorations_come_after_the_old_ones() {
    let old = Decoration { position: Vec3 { x: 9, y: 9, z: 9 }, frame: 7 };
    let mut decorations = vec![old];
    spawn_world_decoration(&mut decorations, 3, 1, 1);
    assert_eq!(decorations.len(), 4);
    assert_eq!(decorations[0], old);
    for d in &decorations[1..] {
        assert!(d.position.x == -1 || d.position.x == 0);
        assert!(d.position.y == -1 || d.position.y == 0);
    }
    spawn_world_decoration(&mut decorations, 0, 1, 1);
    assert_eq!(decorations.len(), 4);
}

#[test]
fn random_positions_lie_in_the_world_and_differ() {
    let first = random_position(6 * UNIT, 4 * UNIT);
    let mut differs = false;
    for _ in 0..200 {
        let p = random_position(6 * UNIT, 4 * UNIT);
        assert!(-6 * UNIT <= p.x && p.x < 6 * UNIT);
        assert!(-4 * UNIT <= p.y && p.y < 4 * UNIT);
        differs = differs || p != first;
    }
    assert!(differs);
    let only = random_position(1, 1);
    assert!(only.x == -1 || only.x == 0);
}

#[test]
fn the_end_of_a_game_takes_all_but_the_enemies_away() {
    let mut player = Some(Player::new());
    let mut gun = Some(Gun::new(GUN_FIRE_RATE));
    let mut bullets = vec![Bullet {
        position: Vec3 { x: 0, y: 0, z: 3 },
        carry: Carry { x: 0, y: 0 },
        aim: Vec2 { x: 1, y: 0 },
        velocity: Vec2 { x: 1, y: 0 },
        lifetime: Timer::new(5, TimerMode::Once),
        sprite: Sprite { index: 1, flip_x: false },
    }];
    let mut decorations = vec![Decoration { position: Vec3 { x: 0, y: 0, z: 1 }, frame: 0 }];
    despawn_all_game_entities(&mut player, &mut gun, &mut bullets, &mut decorations);
    assert_eq!(player, None);
    assert_eq!(gun, None);
    assert!(bullets.is_empty());
    assert!(decorations.is_empty());
}

#[test]
fn the_camera_jumps_onto_the_player() {
    let mut player = Player::new();
    player.position = Vec3 { x: 123_456, y: -654_321, z: 3 };
    let mut camera = Some(MainCamera::new());
    assert_eq!(camera.unwrap().position, Vec3 { x: 0, y: 0, z: 0 });
    camera_follow_player(&Some(player), &mut camera);
    assert_eq!(camera.unwrap().position, Vec3 { x: 123_456, y: -654_321, z: 0 });
    let mut high = Some(MainCamera { position: Vec3 { x: 1, y: 2, z: 999 } });
    camera_follow_player(&Some(player), &mut high);
    assert_eq!(high.unwrap().position, Vec3 { x: 123_456, y: -654_321, z: 0 });
}

#[test]
fn without_a_player_or_a_camera_nothing_follows() {
    let mut camera = Some(MainCamera { position: Vec3 { x: 1, y: 2, z: 3 } });
    camera_follow_player(&None, &mut camera);
    assert_eq!(camera, Some(MainCamera { position: Vec3 { x: 1, y: 2, z: 3 } }));
    let mut none: Option<MainCamera> = None;
    camera_follow_player(&Some(Player::new()), &mut none);
    assert_eq!(none, None);
}

#[test]
fn the_cursor_is_the_target_while_there_is_one() {
    let player = Vec2 { x: 5, y: 6 };
    assert_eq!(CursorPos(Some(Vec2 { x: 1, y: 2 })).target(player), Vec2 { x: 1, y: 2 });
    assert_eq!(CursorPos(None).target(player), player);
}

#[test]
fn the_debug_text_has_three_lines() {
    assert_eq!(format_debug_text(5998, 12, 100), "Fps: 59.98\nEnemies: 12\nHealth: 100");
    assert_eq!(format_debug_text(6000, 1, 97), "Fps: 60.00\nEnemies: 1\nHealth: 97");
    assert_eq!(format_debug_text(5, 1000, 0), "Fps: 0.05\nEnemies: 1000\nHealth: 0");
    assert_eq!(format_debug_text(0, 0, -3), "Fps: 0.00\nEnemies: 0\nHealth: -3");
    assert_eq!(format_debug_text(14_407, 10, 9), "Fps: 144.07\nEnemies: 10\nHealth: 9");
}

#[test]
fn the_debug_text_takes_the_largest_numbers() {
    assert_eq!(
        format_debug_text(u64::MAX, usize::MAX, i64::MIN),
        format!(
            "Fps: 184467440737095516.15\nEnemies: {}\nHealth: -9223372036854775808",
            usize::MAX
        )
    );
    assert_eq!(
        format_debug_text(100, 7, i64::MAX),
        "Fps: 1.00\nEnemies: 7\nHealth: 9223372036854775807"
    );
}

#[test]
fn the_debug_text_is_written_only_with_a_display_and_a_frame_rate() {
    let health = PlayerHealth { value: 88 };
    let mut text = Some(String::from("Hello"));
    update_debug_text(&mut text, None, 4, &health);
    assert_eq!(text, Some(String::from("Hello")));
    update_debug_text(&mut text, Some(6000), 4, &health);
    assert_eq!(text, Some(String::from("Fps: 60.00\nEnemies: 4\nHealth: 88")));
    let mut none: Option<String> = None;
    update_debug_text(&mut none, Some(6000), 4, &health);
    assert_eq!(none, None);
}

#[test]
fn the_debug_text_shows_that_no_enemy_is_left() {
    let health = PlayerHealth { value: 61 };
    let mut text = Some(String::from("Fps: 60.00\nEnemies: 1\nHealth: 61"));
    update_debug_text(&mut text, Some(5990), 0, &health);
    assert_eq!(text, Some(String::from("Fps: 59.90\nEnemies: 0\nHealth: 61")));
}

#[test]
fn the_constants_are_in_world_units() {
    assert_eq!(WORLD_W, 6000 * UNIT);
    assert_eq!(WORLD_H, 4000 * UNIT);
    assert_eq!(BG_COLOR, (197, 204, 184));
}
