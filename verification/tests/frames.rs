use topdown_shooter::animations::{
    animate_enemy, animate_player, animation_timer_tick, flip_enemy_sprite_x, flip_gun_sprite_x,
    flip_player_sprite_x,
};
use topdown_shooter::camera::{camera_follow_player, MainCamera};
use topdown_shooter::constants::{
    BULLET_LIFETIME, BULLET_SPEED, ENEMY_SPAWN_RATE, ENEMY_SPEED, GUN_OFFSET, PLAYER_SPEED, UNIT,
    WORLD_H, WORLD_W,
};
use topdown_shooter::enemy::{
    approach_player, despawn_dead_enemies, spawn_enemies, Enemy, SpawnTimer,
};
use topdown_shooter::gui::update_debug_text;
use topdown_shooter::gun::{handle_gun_input, update_bullets, update_gun_transform, Bullet, Gun};
use topdown_shooter::player::{handle_player_input, MoveKeys, Player, PlayerState};
use topdown_shooter::resources::{CursorPos, PlayerHealth};
use topdown_shooter::state::GameState;
use topdown_shooter::timer::{Timer, TimerMode};
use topdown_shooter::vector::Vec2;
use topdown_shooter::world::init_world;

struct Game {
    player: Option<Player>,
    gun: Option<Gun>,
    camera: Option<MainCamera>,
    bullets: Vec<Bullet>,
    enemies: Vec<Enemy>,
    cursor: CursorPos,
    health: PlayerHealth,
    spawn_timer: SpawnTimer,
    text: Option<String>,
}

fn new_game() -> Game {
    let mut game = Game {
        player: None,
        gun: None,
        camera: Some(MainCamera::new()),
        bullets: Vec::new(),
        enemies: Vec::new(),
        cursor: CursorPos(None),
        health: PlayerHealth::new(),
        spawn_timer: SpawnTimer(Timer::new(ENEMY_SPAWN_RATE, TimerMode::Once)),
        text: Some(String::new()),
    };
    let next = init_world(&mut game.player, &mut game.gun, &mut game.health);
    assert_eq!(next, GameState::InGame);
    game
}

fn frame(game: &mut Game, keys: &MoveKeys, pulled: bool, held: bool, cap: usize, delta: u64) {
    handle_player_input(&mut game.player, keys, WORLD_W, WORLD_H, PLAYER_SPEED, delta);
    update_gun_transform(&game.cursor, &game.player, &mut game.gun, GUN_OFFSET);
    handle_gun_input(
        &mut game.gun,
        &mut game.bullets,
        delta,
        pulled,
        held,
        BULLET_SPEED,
        BULLET_LIFETIME,
    );
    update_bullets(&mut game.bullets, delta, WORLD_W, WORLD_H);
    spawn_enemies(&mut game.enemies, &mut game.spawn_timer, delta, cap, WORLD_W, WORLD_H);
    approach_player(&mut game.enemies, &game.player, ENEMY_SPEED, delta);
    despawn_dead_enemies(&mut game.enemies);
    animation_timer_tick(&mut game.player, &mut game.enemies, delta);
    animate_player(&mut game.player);
    animate_enemy(&mut game.enemies);
    flip_player_sprite_x(&game.cursor, &mut game.player);
    flip_gun_sprite_x(&game.cursor, &mut game.gun);
    flip_enemy_sprite_x(&game.player, &mut game.enemies);
    camera_follow_player(&game.player, &mut game.camera);
    update_debug_text(&mut game.text, Some(4000), game.enemies.len(), &game.health);
}

const FRAME: u64 = 25_000_000;

#[test]
fn ten_seconds_of_walking_right_and_shooting() {
    let mut game = new_game();
    let right = MoveKeys { up: false, down: false, left: false, right: true };
    game.cursor = CursorPos(Some(Vec2 { x: 5000 * UNIT, y: 0 }));
    for n in 0..400 {
        frame(&mut game, &right, n == 0, true, 1000, FRAME);
        assert!(game.enemies.len() <= 1000);
        assert!(game.bullets.len() <= 41);
    }
    let player = game.player.unwrap();
    assert_eq!(player.position.x, 2000 * UNIT);
    assert_eq!(player.position.y, 0);
    assert_eq!(player.state, PlayerState::Run);
    assert!(!player.sprite.flip_x);
    assert!((4..=7).contains(&player.sprite.index));

    let gun = game.gun.unwrap();
    assert_eq!(gun.position.x, player.position.x + 50 * UNIT);
    assert_eq!(gun.position.y, 0);
    assert_eq!(gun.aim, Vec2 { x: 50 * UNIT, y: 0 });

    let camera = game.camera.unwrap();
    assert_eq!((camera.position.x, camera.position.y, camera.position.z), (2000 * UNIT, 0, 0));

    assert_eq!(game.enemies.len(), 100);
    assert!(game.bullets.len() >= 39);
    for b in &game.bullets {
        assert_eq!(b.velocity, Vec2 { x: 1000 * UNIT, y: 0 });
        assert!(b.lifetime.elapsed < BULLET_LIFETIME);
        assert_eq!(b.position.y, 0);
    }
    for pair in game.bullets.windows(2) {
        assert!(pair[0].lifetime.elapsed > pair[1].lifetime.elapsed);
    }
    assert_eq!(game.text, Some(String::from("Fps: 40.00\nEnemies: 100\nHealth: 100")));
}

#[test]
fn the_pool_of_enemies_stops_at_its_cap() {
    let mut game = new_game();
    let none = MoveKeys { up: false, down: false, left: false, right: false };
    let mut sizes = Vec::new();
    for n in 1..=200 {
        frame(&mut game, &none, false, false, 37, FRAME);
        if n % 40 == 0 {
            sizes.push(game.enemies.len());
        }
    }
    assert_eq!(sizes, vec![10, 20, 30, 37, 37]);
    assert!(game.bullets.is_empty());
    assert_eq!(game.player.unwrap().state, PlayerState::Idle);
    assert_eq!(game.player.unwrap().position.x, 0);
}

#[test]
fn enemies_close_in_on_a_standing_player_and_the_dead_leave() {
    let mut game = new_game();
    let none = MoveKeys { up: false, down: false, left: false, right: false };
    for _ in 0..40 {
        frame(&mut game, &none, false, false, 1000, FRAME);
    }
    assert_eq!(game.enemies.len(), 10);
    let far: Vec<i128> = game
        .enemies
        .iter()
        .map(|e| (e.position.x as i128).pow(2) + (e.position.y as i128).pow(2))
        .collect();
    for _ in 0..39 {
        frame(&mut game, &none, false, false, 1000, FRAME);
    }
    for (e, before) in game.enemies.iter().zip(&far) {
        let now = (e.position.x as i128).pow(2) + (e.position.y as i128).pow(2);
        assert!(now < *before || *before < (150 * UNIT as i128).pow(2));
        assert_eq!(e.sprite.flip_x, e.position.x >= 0);
    }
    game.enemies[3].health = 0;
    game.enemies[7].health = -20;
    let third = game.enemies[4];
    frame(&mut game, &none, false, false, 1000, 0);
    assert_eq!(game.enemies.len(), 8);
    assert!(game.enemies.iter().all(|e| e.health > 0));
    assert_eq!(game.enemies[3].kind, third.kind);
}

#[test]
fn without_entities_a_frame_only_runs_the_spawn_timer() {
    let mut game = Game {
        player: None,
        gun: None,
        camera: None,
        bullets: Vec::new(),
        enemies: Vec::new(),
        cursor: CursorPos(Some(Vec2 { x: 1, y: 1 })),
        health: PlayerHealth::new(),
        spawn_timer: SpawnTimer(Timer::new(ENEMY_SPAWN_RATE, TimerMode::Once)),
        text: None,
    };
    let all = MoveKeys { up: true, down: false, left: true, right: false };
    frame(&mut game, &all, true, true, 1000, FRAME);
    assert_eq!(game.player, None);
    assert_eq!(game.gun, None);
    assert_eq!(game.camera, None);
    assert!(game.bullets.is_empty());
    assert!(game.enemies.is_empty());
    assert_eq!(game.text, None);
    assert_eq!(game.spawn_timer.0.elapsed, FRAME);
}
