use topdown_shooter::animations::{
    animate_enemy, animate_player, animation_timer_tick, flip_enemy_sprite_x, flip_gun_sprite_x,
    flip_player_sprite_x, next_frame, AnimationTimer, Sprite,
};
use topdown_shooter::constants::ANIMATION_RATE;
use topdown_shooter::enemy::{Enemy, EnemyState, EnemyType};
use topdown_shooter::gun::Gun;
use topdown_shooter::player::{Player, PlayerState};
use topdown_shooter::resources::CursorPos;
use topdown_shooter::timer::{Timer, TimerMode};
use topdown_shooter::vector::Vec2;

fn enemy_at(x: i64) -> Enemy {
    Enemy::new(EnemyType::Grub, Vec2 { x, y: 0 })
}

fn cursor(x: i64) -> CursorPos {
    CursorPos(Some(Vec2 { x, y: 0 }))
}

fn just_finished() -> AnimationTimer {
    let mut t = Timer::new(10, TimerMode::Repeating);
    t.tick(10);
    AnimationTimer(t)
}

#[test]
fn the_next_frame_stays_among_the_four_of_its_animation() {
    assert_eq!(next_frame(0, 0), 1);
    assert_eq!(next_frame(1, 0), 2);
    assert_eq!(next_frame(2, 0), 3);
    assert_eq!(next_frame(3, 0), 0);
    assert_eq!(next_frame(4, 4), 5);
    assert_eq!(next_frame(7, 4), 4);
    assert_eq!(next_frame(2, 4), 7);
    assert_eq!(next_frame(6, 0), 3);
    assert_eq!(next_frame(usize::MAX, 4), 4);
    assert_eq!(next_frame(usize::MAX, usize::MAX - 3), usize::MAX - 3);
    for index in 0..40 {
        for base in [0usize, 4] {
            let next = next_frame(index, base);
            assert!(base <= next && next <= base + 3);
        }
    }
}

#[test]
fn an_animation_is_back_at_its_start_after_four_frames() {
    for base in [0usize, 4] {
        for start in base..base + 4 {
            let mut index = start;
            let mut seen = Vec::new();
            for _ in 0..4 {
                index = next_frame(index, base);
                seen.push(index);
            }
            assert_eq!(index, start);
            seen.sort();
            assert_eq!(seen, vec![base, base + 1, base + 2, base + 3]);
        }
    }
}

#[test]
fn a_sprite_changes_only_when_the_timer_has_just_finished() {
    let mut s = Sprite { index: 5, flip_x: true };
    s.animate(&AnimationTimer(Timer::new(10, TimerMode::Repeating)), 4);
    assert_eq!(s, Sprite { index: 5, flip_x: true });
    s.animate(&just_finished(), 4);
    assert_eq!(s, Sprite { index: 6, flip_x: true });
    s.animate(&just_finished(), 0);
    assert_eq!(s, Sprite { index: 3, flip_x: true });
}

#[test]
fn the_player_runs_through_frames_four_to_seven_at_any_frame_length() {
    for step in [ANIMATION_RATE, ANIMATION_RATE / 5, ANIMATION_RATE / 25, 1_000_000] {
        let mut player = Some(Player::new());
        let mut enemies: Vec<Enemy> = Vec::new();
        player.as_mut().unwrap().state = PlayerState::Run;
        let mut frames = Vec::new();
        let mut passed: u64 = 0;
        while passed < 8 * ANIMATION_RATE {
            animation_timer_tick(&mut player, &mut enemies, step);
            animate_player(&mut player);
            passed += step;
            if passed % ANIMATION_RATE == 0 {
                frames.push(player.unwrap().sprite.index);
            }
            let index = player.unwrap().sprite.index;
            assert!(index == 0 || (4..=7).contains(&index));
        }
        assert_eq!(frames, vec![5, 6, 7, 4, 5, 6, 7, 4]);
    }
}

#[test]
fn a_standing_player_runs_through_frames_zero_to_three() {
    let mut player = Some(Player::new());
    let mut enemies: Vec<Enemy> = Vec::new();
    let mut frames = Vec::new();
    for _ in 0..5 {
        animation_timer_tick(&mut player, &mut enemies, ANIMATION_RATE);
        animate_player(&mut player);
        frames.push(player.unwrap().sprite.index);
    }
    assert_eq!(frames, vec![1, 2, 3, 0, 1]);
}

#[test]
fn a_long_frame_advances_the_animation_by_one() {
    let mut player = Some(Player::new());
    let mut enemies = vec![enemy_at(0)];
    animation_timer_tick(&mut player, &mut enemies, 3 * ANIMATION_RATE + 5);
    assert_eq!(player.unwrap().animation.0.times_finished_this_tick, 3);
    assert_eq!(player.unwrap().animation.0.elapsed, 5);
    animate_player(&mut player);
    animate_enemy(&mut enemies);
    assert_eq!(player.unwrap().sprite.index, 1);
    assert_eq!(enemies[0].sprite.index, 5);
}

#[test]
fn a_change_of_state_changes_the_animation() {
    let mut player = Some(Player::new());
    let mut enemies: Vec<Enemy> = Vec::new();
    animation_timer_tick(&mut player, &mut enemies, ANIMATION_RATE);
    animate_player(&mut player);
    assert_eq!(player.unwrap().sprite.index, 1);
    player.as_mut().unwrap().state = PlayerState::Run;
    animation_timer_tick(&mut player, &mut enemies, ANIMATION_RATE);
    animate_player(&mut player);
    assert_eq!(player.unwrap().sprite.index, 6);
    player.as_mut().unwrap().state = PlayerState::Idle;
    animation_timer_tick(&mut player, &mut enemies, ANIMATION_RATE);
    animate_player(&mut player);
    assert_eq!(player.unwrap().sprite.index, 3);
}

#[test]
fn each_enemy_is_animated_by_its_own_timer_and_state() {
    let mut enemies = vec![enemy_at(0), enemy_at(1), enemy_at(2)];
    enemies[1].state = EnemyState::Idle;
    enemies[2].animation = AnimationTimer(Timer::new(2 * ANIMATION_RATE, TimerMode::Repeating));
    let mut nobody: Option<Player> = None;
    let mut frames = Vec::new();
    for _ in 0..4 {
        animation_timer_tick(&mut nobody, &mut enemies, ANIMATION_RATE);
        animate_enemy(&mut enemies);
        frames.push((enemies[0].sprite.index, enemies[1].sprite.index, enemies[2].sprite.index));
    }
    assert_eq!(frames, vec![(5, 1, 0), (6, 2, 5), (7, 3, 5), (4, 0, 6)]);
    assert_eq!(nobody, None);
}

#[test]
fn ticking_changes_nothing_but_the_timers() {
    let mut player = Some(Player::new());
    let mut enemies = vec![enemy_at(3)];
    animation_timer_tick(&mut player, &mut enemies, 7);
    let mut p = Player::new();
    p.animation.0.tick(7);
    let mut e = enemy_at(3);
    e.animation.0.tick(7);
    assert_eq!(player, Some(p));
    assert_eq!(enemies, vec![e]);
    animate_player(&mut player);
    animate_enemy(&mut enemies);
    assert_eq!(player, Some(p));
    assert_eq!(enemies, vec![e]);
    let mut nobody: Option<Player> = None;
    animate_player(&mut nobody);
    assert_eq!(nobody, None);
}

#[test]
fn a_sprite_is_mirrored_unless_its_target_is_to_the_right() {
    let mut s = Sprite { index: 3, flip_x: false };
    s.face(10, 9);
    assert_eq!(s, Sprite { index: 3, flip_x: true });
    s.face(10, 11);
    assert_eq!(s, Sprite { index: 3, flip_x: false });
    s.face(10, 10);
    assert_eq!(s, Sprite { index: 3, flip_x: true });
    s.face(i64::MIN, i64::MAX);
    assert!(!s.flip_x);
}

#[test]
fn the_player_faces_the_cursor() {
    let mut player = Some(Player::new());
    flip_player_sprite_x(&cursor(-1), &mut player);
    assert!(player.unwrap().sprite.flip_x);
    flip_player_sprite_x(&cursor(1), &mut player);
    assert!(!player.unwrap().sprite.flip_x);
    flip_player_sprite_x(&cursor(0), &mut player);
    assert!(player.unwrap().sprite.flip_x);
    flip_player_sprite_x(&CursorPos(None), &mut player);
    assert!(player.unwrap().sprite.flip_x);
    let mut expected = Player::new();
    expected.sprite.flip_x = true;
    assert_eq!(player, Some(expected));
    let mut nobody: Option<Player> = None;
    flip_player_sprite_x(&cursor(0), &mut nobody);
    assert_eq!(nobody, None);
}

#[test]
fn the_gun_faces_the_cursor() {
    let mut gun = Some(Gun::new(5));
    gun.as_mut().unwrap().position.x = 50;
    flip_gun_sprite_x(&cursor(49), &mut gun);
    assert!(gun.unwrap().sprite.flip_x);
    flip_gun_sprite_x(&CursorPos(None), &mut gun);
    assert!(gun.unwrap().sprite.flip_x);
    flip_gun_sprite_x(&cursor(51), &mut gun);
    assert!(!gun.unwrap().sprite.flip_x);
    flip_gun_sprite_x(&cursor(50), &mut gun);
    assert!(gun.unwrap().sprite.flip_x);
    assert_eq!(gun.unwrap().sprite.index, 0);
    let mut none: Option<Gun> = None;
    flip_gun_sprite_x(&cursor(0), &mut none);
    assert_eq!(none, None);
}

#[test]
fn the_enemies_face_the_player() {
    let mut enemies = vec![enemy_at(-10), enemy_at(0), enemy_at(10)];
    let player = Some(Player::new());
    flip_enemy_sprite_x(&player, &mut enemies);
    let flips: Vec<bool> = enemies.iter().map(|e| e.sprite.flip_x).collect();
    assert_eq!(flips, vec![false, true, true]);
    flip_enemy_sprite_x(&None, &mut enemies);
    let kept: Vec<bool> = enemies.iter().map(|e| e.sprite.flip_x).collect();
    assert_eq!(kept, vec![false, true, true]);
    let mut far = Player::new();
    far.position.x = 11;
    flip_enemy_sprite_x(&Some(far), &mut enemies);
    assert!(enemies.iter().all(|e| !e.sprite.flip_x));
    let places: Vec<i64> = enemies.iter().map(|e| e.position.x).collect();
    assert_eq!(places, vec![-10, 0, 10]);
}
