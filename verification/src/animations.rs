//! Sprite animation: which frame of its sheet an entity shows, and which way
//! it faces.
use crate::enemy::{Enemy, EnemyState};
use crate::gun::Gun;
use crate::player::{Player, PlayerState};
use crate::resources::CursorPos;
use crate::timer::Timer;
use vstd::prelude::*;

verus! {

/// Frames in one animation.
pub const FRAMES: usize = 4;

/// The repeating timer that paces an entity's animation.
#[derive(Clone, Copy, Debug, PartialEq, Eq, Structural)]
pub struct AnimationTimer(pub Timer);

/// What is drawn for an entity: the frame of its sheet, and whether it is
/// mirrored to face left.
#[derive(Clone, Copy, Debug, PartialEq, Eq, Structural)]
pub struct Sprite {
    pub index: usize,
    pub flip_x: bool,
}

/// The first frame of the player's animation: 0 while standing, 4 while
/// running.
pub open spec fn player_base(state: PlayerState) -> usize {
    match state {
        PlayerState::Idle => 0,
        PlayerState::Run => 4,
    }
}

/// The first frame of an enemy's animation: 0 while standing, 4 while
/// running.
pub open spec fn enemy_base(state: EnemyState) -> usize {
    match state {
        EnemyState::Idle => 0,
        EnemyState::Run => 4,
    }
}

/// The frame that follows `index` in the animation that starts at `base`.
pub open spec fn frame_after(index: usize, base: usize) -> int {
    base + (index + 1) % (FRAMES as int)
}

impl Sprite {
    /// The sprite after a frame of the game: where the animation timer has
    /// completed a run in that frame it shows the next frame of the animation
    /// that starts at `base`, else it is unchanged.
    pub open spec fn animated(self, timer: AnimationTimer, base: usize) -> Sprite {
        if timer.0.times_finished_this_tick > 0 {
            Sprite { index: frame_after(self.index, base) as usize, ..self }
        } else {
            self
        }
    }

    /// The sprite of an entity at `x` that is to face a point at `toward`: it
    /// is mirrored exactly if that point is not to its right.
    pub open spec fn facing(self, x: i64, toward: i64) -> Sprite {
        Sprite { flip_x: toward <= x, ..self }
    }

    /// Turns the sprite of an entity at `x` to face a point at `toward`.
    pub fn face(&mut self, x: i64, toward: i64)
        ensures
            *final(self) == old(self).facing(x, toward),
    {
        self.flip_x = toward <= x;
    }

    /// Shows the next frame if the animation timer has just completed a run.
    pub fn animate(&mut self, timer: &AnimationTimer, base: usize)
        requires
            base + 3 <= usize::MAX,
        ensures
            *final(self) == old(self).animated(*timer, base),
    {
        if timer.0.just_finished() {
            self.index = next_frame(self.index, base);
        }
    }
}

/// The frame shown once `steps` frames have followed `index`.
pub open spec fn frame_after_steps(index: usize, base: usize, steps: nat) -> int
    decreases steps,
{
    if steps == 0 {
        index as int
    } else {
        frame_after(frame_after_steps(index, base, (steps - 1) as nat) as usize, base)
    }
}

/// The frame that follows `index` in the animation that starts at `base`. It
/// is one of the four frames from `base` on.
pub fn next_frame(index: usize, base: usize) -> (next: usize)
    requires
        base + 3 <= usize::MAX,
    ensures
        next == frame_after(index, base),
        base <= next <= base + 3,
{
    base + (index % FRAMES + 1) % FRAMES
}

/// An animation whose first frame is a multiple of four runs through its four
/// frames in order and is back where it started after four steps.
pub proof fn lemma_frames_cycle(index: usize, base: usize)
    requires
        base % 4 == 0,
        base <= index <= base + 3,
        base + 3 <= usize::MAX,
    ensures
        frame_after_steps(index, base, 1) == base + (index - base + 1) % 4,
        frame_after_steps(index, base, 2) == base + (index - base + 2) % 4,
        frame_after_steps(index, base, 3) == base + (index - base + 3) % 4,
        frame_after_steps(index, base, 4) == index,
{
    reveal_with_fuel(frame_after_steps, 5);
}

/// Whatever frame was shown before, every later frame is one of the four from
/// `base` on.
pub proof fn lemma_frames_stay_in_window(index: usize, base: usize, steps: nat)
    requires
        steps > 0,
        base + 3 <= usize::MAX,
    ensures
        base <= frame_after_steps(index, base, steps) <= base + 3,
    decreases steps,
{
    if steps > 1 {
        lemma_frames_stay_in_window(index, base, (steps - 1) as nat);
    }
}

impl Player {
    /// The player with `delta` nanoseconds counted on the animation timer.
    pub open spec fn animation_ticked(self, delta: u64) -> Player {
        Player { animation: AnimationTimer(self.animation.0.ticked(delta)), ..self }
    }

    /// The player with the frame that its animation timer and state ask for.
    pub open spec fn animated(self) -> Player {
        Player { sprite: self.sprite.animated(self.animation, player_base(self.state)), ..self }
    }

    /// The player turned to face a cursor at `cursor_x`.
    pub open spec fn facing(self, cursor_x: i64) -> Player {
        Player { sprite: self.sprite.facing(self.position.x, cursor_x), ..self }
    }
}

impl Enemy {
    /// The enemy with `delta` nanoseconds counted on the animation timer.
    pub open spec fn animation_ticked(self, delta: u64) -> Enemy {
        Enemy { animation: AnimationTimer(self.animation.0.ticked(delta)), ..self }
    }

    /// The enemy with the frame that its animation timer and state ask for.
    pub open spec fn animated(self) -> Enemy {
        Enemy { sprite: self.sprite.animated(self.animation, enemy_base(self.state)), ..self }
    }

    /// The enemy turned to face a player at `player_x`: it is mirrored
    /// exactly if the player is not to its right.
    pub open spec fn facing(self, player_x: i64) -> Enemy {
        Enemy { sprite: self.sprite.facing(self.position.x, player_x), ..self }
    }
}

impl Player {
    /// Shows the next frame of the player's animation if its timer has just
    /// completed a run.
    pub fn animate(&mut self)
        ensures
            *final(self) == old(self).animated(),
    {
        let base: usize = match self.state {
            PlayerState::Idle => 0,
            PlayerState::Run => 4,
        };
        let timer = self.animation;
        self.sprite.animate(&timer, base);
    }
}

impl Enemy {
    /// Shows the next frame of the enemy's animation if its timer has just
    /// completed a run.
    pub fn animate(&mut self)
        ensures
            *final(self) == old(self).animated(),
    {
        let base: usize = match self.state {
            EnemyState::Idle => 0,
            EnemyState::Run => 4,
        };
        let timer = self.animation;
        self.sprite.animate(&timer, base);
    }
}

impl Gun {
    /// The gun turned to face a cursor at `cursor_x`.
    pub open spec fn facing(self, cursor_x: i64) -> Gun {
        Gun { sprite: self.sprite.facing(self.position.x, cursor_x), ..self }
    }
}

/// Counts `delta` nanoseconds on the animation timer of the player, if there
/// is one, and of every enemy.
pub fn animation_timer_tick(player: &mut Option<Player>, enemies: &mut Vec<Enemy>, delta: u64)
    ensures
        old(player).is_none() ==> final(player).is_none(),
        old(player).is_some() ==> *final(player) == Some(
            old(player).unwrap().animation_ticked(delta),
        ),
        final(enemies)@ == old(enemies)@.map_values(|e: Enemy| e.animation_ticked(delta)),
{
    match player {
        Some(p) => {
            p.animation.0.tick(delta);
        },
        None => {},
    }
    let ghost before = enemies@;
    let ghost ticked = |e: Enemy| e.animation_ticked(delta);
    let mut i: usize = 0;
    while i < enemies.len()
        invariant
            i <= enemies@.len(),
            enemies@.len() == before.len(),
            ticked == |e: Enemy| e.animation_ticked(delta),
            forall|k: int| i <= k < before.len() ==> #[trigger] enemies@[k] == before[k],
            forall|k: int| 0 <= k < i ==> #[trigger] enemies@[k] == ticked(before[k]),
        decreases enemies@.len() - i,
    {
        let mut enemy = enemies[i];
        enemy.animation.0.tick(delta);
        enemies.set(i, enemy);
        i = i + 1;
    }
}

/// Shows the next frame of the player's animation if its timer has just
/// completed a run. Without a player nothing happens.
pub fn animate_player(player: &mut Option<Player>)
    ensures
        old(player).is_none() ==> final(player).is_none(),
        old(player).is_some() ==> *final(player) == Some(old(player).unwrap().animated()),
{
    match player {
        Some(p) => {
            p.animate();
        },
        None => {},
    }
}

/// Shows the next frame of the animation of every enemy whose timer has just
/// completed a run.
pub fn animate_enemy(enemies: &mut Vec<Enemy>)
    ensures
        final(enemies)@ == old(enemies)@.map_values(|e: Enemy| e.animated()),
{
    let ghost before = enemies@;
    let ghost shown = |e: Enemy| e.animated();
    let mut i: usize = 0;
    while i < enemies.len()
        invariant
            i <= enemies@.len(),
            enemies@.len() == before.len(),
            shown == |e: Enemy| e.animated(),
            forall|k: int| i <= k < before.len() ==> #[trigger] enemies@[k] == before[k],
            forall|k: int| 0 <= k < i ==> #[trigger] enemies@[k] == shown(before[k]),
        decreases enemies@.len() - i,
    {
        let mut enemy = enemies[i];
        enemy.animate();
        enemies.set(i, enemy);
        i = i + 1;
    }
}

/// Makes the player face the cursor: the sprite is mirrored exactly if the
/// cursor is not to the player's right. Without a player or a cursor nothing
/// happens.
pub fn flip_player_sprite_x(cursor_pos: &CursorPos, player: &mut Option<Player>)
    ensures
        old(player).is_none() || cursor_pos.0.is_none() ==> *final(player) == *old(player),
        old(player).is_some() && cursor_pos.0.is_some() ==> *final(player) == Some(
            old(player).unwrap().facing(cursor_pos.0.unwrap().x),
        ),
{
    match (player, cursor_pos.0) {
        (Some(p), Some(cursor)) => {
            p.sprite.face(p.position.x, cursor.x);
        },
        _ => {},
    }
}

/// Makes every enemy face the player: the sprite is mirrored exactly if the
/// player is not to the enemy's right. Without a player nothing happens.
pub fn flip_enemy_sprite_x(player: &Option<Player>, enemies: &mut Vec<Enemy>)
    ensures
        player.is_none() ==> final(enemies)@ == old(enemies)@,
        player.is_some() ==> final(enemies)@ == old(enemies)@.map_values(
            |e: Enemy| e.facing(player.unwrap().position.x),
        ),
{
    let player_x: i64 = match player {
        Some(p) => p.position.x,
        None => {
            return ;
        },
    };
    let ghost before = enemies@;
    let ghost turned = |e: Enemy| e.facing(player_x);
    let mut i: usize = 0;
    while i < enemies.len()
        invariant
            i <= enemies@.len(),
            enemies@.len() == before.len(),
            turned == |e: Enemy| e.facing(player_x),
            forall|k: int| i <= k < before.len() ==> #[trigger] enemies@[k] == before[k],
            forall|k: int| 0 <= k < i ==> #[trigger] enemies@[k] == turned(before[k]),
        decreases enemies@.len() - i,
    {
        let mut enemy = enemies[i];
        enemy.sprite.face(enemy.position.x, player_x);
        enemies.set(i, enemy);
        i = i + 1;
    }
}

/// Makes the gun face the cursor: the sprite is mirrored exactly if the
/// cursor is not to the gun's right. Without a gun or a cursor nothing
/// happens.
pub fn flip_gun_sprite_x(cursor_pos: &CursorPos, gun: &mut Option<Gun>)
    ensures
        old(gun).is_none() || cursor_pos.0.is_none() ==> *final(gun) == *old(gun),
        old(gun).is_some() && cursor_pos.0.is_some() ==> *final(gun) == Some(
            old(gun).unwrap().facing(cursor_pos.0.unwrap().x),
        ),
{
    match (gun, cursor_pos.0) {
        (Some(g), Some(cursor)) => {
            g.sprite.face(g.position.x, cursor.x);
        },
        _ => {},
    }
}

} // verus!
