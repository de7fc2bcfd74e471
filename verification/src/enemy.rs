//! Enemies: how they are spawned, how they chase the player and when they
//! leave the pool.
use crate::animations::{AnimationTimer, Sprite};
use crate::constants::{ANIMATION_RATE, ENEMY_HEALTH, ENEMY_LAYER, ENEMY_SPAWN_BATCH};
use crate::player::Player;
use crate::random::{in_spawn_area, random_in_range, random_position};
use crate::timer::{Timer, TimerMode};
use crate::vector::{glides, lemma_slower_glides, slid, slide, Carry, Vec2, Vec3};
use vstd::prelude::*;

verus! {

/// The five kinds of enemy. The kind only selects the sprite sheet.
#[derive(Clone, Copy, Debug, PartialEq, Eq, Structural)]
pub enum EnemyType {
    Grub,
    Skele,
    Gob,
    Devil,
    Demon,
}

/// Whether an enemy stands or runs; it selects the animation.
#[derive(Clone, Copy, Debug, PartialEq, Eq, Structural)]
pub enum EnemyState {
    Idle,
    Run,
}

/// One enemy of the pool.
#[derive(Clone, Copy, Debug, PartialEq, Eq, Structural)]
pub struct Enemy {
    pub health: i64,
    pub position: Vec3,
    /// What is left over of a unit after the moves so far.
    pub carry: Carry,
    pub kind: EnemyType,
    pub state: EnemyState,
    pub sprite: Sprite,
    pub animation: AnimationTimer,
}

/// The one-shot timer that paces the spawning of enemies.
#[derive(Clone, Copy, Debug, PartialEq, Eq, Structural)]
pub struct SpawnTimer(pub Timer);

impl Default for EnemyState {
    /// Enemies start out running.
    fn default() -> (state: EnemyState)
        ensures
            state == EnemyState::Run,
    {
        EnemyState::Run
    }
}

impl EnemyType {
    /// The kind that stands for a draw `index`: the first four kinds for 0 to
    /// 3, and `Demon` for every other number.
    pub open spec fn of_index(index: i64) -> EnemyType {
        if index == 0 {
            EnemyType::Grub
        } else if index == 1 {
            EnemyType::Skele
        } else if index == 2 {
            EnemyType::Gob
        } else if index == 3 {
            EnemyType::Devil
        } else {
            EnemyType::Demon
        }
    }

    /// The place of the kind's sheet among the entity sheets, from 1 to 5.
    pub open spec fn sheet_index(self) -> usize {
        match self {
            EnemyType::Grub => 1,
            EnemyType::Skele => 2,
            EnemyType::Gob => 3,
            EnemyType::Devil => 4,
            EnemyType::Demon => 5,
        }
    }

    /// The kind that stands for a draw `index`.
    pub fn from_index(index: i64) -> (kind: EnemyType)
        ensures
            kind == EnemyType::of_index(index),
    {
        match index {
            0 => EnemyType::Grub,
            1 => EnemyType::Skele,
            2 => EnemyType::Gob,
            3 => EnemyType::Devil,
            _ => EnemyType::Demon,
        }
    }

    /// One of the five kinds, chosen by a random draw from 0 to 4.
    pub fn get_random_enemy_type() -> (kind: EnemyType)
        ensures
            exists|index: i64| 0 <= index < 5 && kind == EnemyType::of_index(index),
    {
        let index: i64 = random_in_range(0, 5);
        EnemyType::from_index(index)
    }

    /// The place of the kind's sheet among the entity sheets.
    pub fn get_sprite_sheet_index(&self) -> (index: usize)
        ensures
            index == self.sheet_index(),
            1 <= index <= 5,
    {
        match self {
            EnemyType::Grub => 1,
            EnemyType::Skele => 2,
            EnemyType::Gob => 3,
            EnemyType::Devil => 4,
            EnemyType::Demon => 5,
        }
    }
}

/// How many enemies a spawn adds to a pool of `current` under the limit
/// `cap`: what is missing to the limit, and at most `ENEMY_SPAWN_BATCH`.
pub open spec fn batch_size(current: nat, cap: nat) -> nat {
    if current >= cap {
        0
    } else {
        vstd::math::min(cap - current, ENEMY_SPAWN_BATCH as int) as nat
    }
}

/// A spawn never takes the pool above the limit, and a pool that is above
/// it does not grow.
pub proof fn lemma_spawn_respects_cap(current: nat, cap: nat)
    ensures
        current <= cap ==> current + batch_size(current, cap) <= cap,
        current >= cap ==> current + batch_size(current, cap) == current,
        batch_size(current, cap) <= ENEMY_SPAWN_BATCH,
{
}

/// How many enemies a spawn adds to a pool of `current` under the limit `cap`.
pub fn spawn_count(current: usize, cap: usize) -> (count: usize)
    ensures
        count == batch_size(current as nat, cap as nat),
        current + count <= cap || count == 0,
{
    if current >= cap {
        0
    } else if cap - current < ENEMY_SPAWN_BATCH {
        cap - current
    } else {
        ENEMY_SPAWN_BATCH
    }
}

impl Enemy {
    /// An enemy as it enters the game at `spot`: at full health, running, on
    /// the enemies' draw layer, showing the first frame.
    pub open spec fn spawned(kind: EnemyType, spot: Vec2) -> Enemy {
        Enemy {
            health: ENEMY_HEALTH,
            position: Vec3 { x: spot.x, y: spot.y, z: ENEMY_LAYER },
            carry: Carry { x: 0, y: 0 },
            kind,
            state: EnemyState::Run,
            sprite: Sprite { index: 0, flip_x: false },
            animation: AnimationTimer(Timer::fresh(ANIMATION_RATE, TimerMode::Repeating)),
        }
    }

    /// The enemy has no health left.
    pub open spec fn dead(self) -> bool {
        self.health <= 0
    }

    /// The planar position lies in the range on which movement is defined.
    pub open spec fn in_range(self) -> bool {
        (Vec2 { x: self.position.x, y: self.position.y }).in_range()
    }

    /// The enemy after `delta` nanoseconds on its way toward `target`. It
    /// moves at `speed` along the direction from its place to the target, the
    /// velocity rounded toward zero on each axis; an enemy that stands on the
    /// target stays there.
    pub open spec fn stepped_toward(self, target: Vec2, speed: u32, delta: u64) -> Enemy {
        let way = Vec2 {
            x: (target.x - self.position.x) as i64,
            y: (target.y - self.position.y) as i64,
        };
        let after = slid(self.position, self.carry, way.scaled_to(speed), delta);
        Enemy { position: after.0, carry: after.1, ..self }
    }

    /// An enemy of the kind `kind` as it enters the game at `spot`.
    pub fn new(kind: EnemyType, spot: Vec2) -> (enemy: Enemy)
        ensures
            enemy == Enemy::spawned(kind, spot),
    {
        Enemy {
            health: ENEMY_HEALTH,
            position: Vec3 { x: spot.x, y: spot.y, z: ENEMY_LAYER },
            carry: Carry { x: 0, y: 0 },
            kind,
            state: EnemyState::Run,
            sprite: Sprite { index: 0, flip_x: false },
            animation: AnimationTimer(Timer::new(ANIMATION_RATE, TimerMode::Repeating)),
        }
    }

    /// Whether the enemy has no health left.
    pub fn is_dead(&self) -> (dead: bool)
        ensures
            dead == self.dead(),
    {
        self.health <= 0
    }

    /// Moves the enemy for `delta` nanoseconds at `speed` toward `target`.
    pub fn approach(&mut self, target: &Vec2, speed: u32, delta: u64)
        requires
            old(self).in_range(),
            target.in_range(),
            glides(speed as int, delta),
        ensures
            *final(self) == old(self).stepped_toward(*target, speed, delta),
    {
        let here = self.position.truncate();
        let velocity = target.minus(&here).with_length(speed);
        proof {
            lemma_slower_glides(velocity.x as int, speed as int, delta);
            lemma_slower_glides(velocity.y as int, speed as int, delta);
        }
        slide(&mut self.position, &mut self.carry, &velocity, delta);
    }
}

/// Runs the spawn timer and, when it has run out, adds a batch of enemies of
/// one random kind at random places of the world and starts the timer anew.
///
/// The pool never grows beyond `cap`: a batch holds what is missing to `cap`,
/// at most `ENEMY_SPAWN_BATCH`. The enemies already there are left as they
/// are. The timer is started anew whenever it has run out, also when the pool
/// is full.
pub fn spawn_enemies(
    enemies: &mut Vec<Enemy>,
    spawn_timer: &mut SpawnTimer,
    delta: u64,
    cap: usize,
    world_w: i64,
    world_h: i64,
)
    requires
        world_w > 0,
        world_h > 0,
    ensures
        old(spawn_timer).0.ticked(delta).finished ==> final(spawn_timer).0 == old(
            spawn_timer,
        ).0.ticked(delta).rewound(),
        !old(spawn_timer).0.ticked(delta).finished ==> final(spawn_timer).0 == old(
            spawn_timer,
        ).0.ticked(delta),
        !old(spawn_timer).0.ticked(delta).finished ==> final(enemies)@ == old(enemies)@,
        old(spawn_timer).0.ticked(delta).finished ==> final(enemies)@.len() == old(enemies)@.len()
            + batch_size(old(enemies)@.len(), cap as nat),
        old(enemies)@.len() <= cap ==> final(enemies)@.len() <= cap,
        final(enemies)@.take(old(enemies)@.len() as int) == old(enemies)@,
        forall|i: int|
            old(enemies)@.len() <= i < final(enemies)@.len() ==> is_newcomer(
                #[trigger] final(enemies)@[i],
                final(enemies)@[old(enemies)@.len() as int].kind,
                world_w,
                world_h,
            ),
{
    spawn_timer.0.tick(delta);
    if spawn_timer.0.finished() {
        let count: usize = spawn_count(enemies.len(), cap);
        let kind = EnemyType::get_random_enemy_type();
        let ghost before = enemies@;
        let mut added: usize = 0;
        while added < count
            invariant
                world_w > 0,
                world_h > 0,
                added <= count,
                before.len() + count <= usize::MAX,
                enemies@.len() == before.len() + added,
                enemies@.take(before.len() as int) == before,
                forall|i: int|
                    before.len() <= i < enemies@.len() ==> is_newcomer(
                        #[trigger] enemies@[i],
                        kind,
                        world_w,
                        world_h,
                    ),
            decreases count - added,
        {
            let spot = random_position(world_w, world_h);
            enemies.push(Enemy::new(kind, spot));
            added = added + 1;
        }
        spawn_timer.0.reset();
    }
}

/// `enemy` is as `Enemy::new` makes one of the kind `kind`, at a place of the
/// world `[-w, w)` by `[-h, h)`.
pub open spec fn is_newcomer(enemy: Enemy, kind: EnemyType, w: i64, h: i64) -> bool {
    let spot = Vec2 { x: enemy.position.x, y: enemy.position.y };
    enemy == Enemy::spawned(kind, spot) && in_spawn_area(spot, w, h)
}

/// No enemy without health is left among those that a pass of
/// `despawn_dead_enemies` keeps, and every enemy with health is.
pub proof fn lemma_dead_enemies_leave(enemies: Seq<Enemy>, enemy: Enemy)
    ensures
        enemy.health <= 0 ==> !enemies.filter(|e: Enemy| !e.dead()).contains(enemy),
        enemy.health > 0 && enemies.contains(enemy) ==> enemies.filter(
            |e: Enemy| !e.dead(),
        ).contains(enemy),
{
    broadcast use vstd::seq_lib::group_filter_ensures;

}

/// Removes every enemy whose health is 0 or less. The others stay, in their
/// order.
pub fn despawn_dead_enemies(enemies: &mut Vec<Enemy>)
    ensures
        final(enemies)@ == old(enemies)@.filter(|e: Enemy| !e.dead()),
        forall|i: int| 0 <= i < final(enemies)@.len() ==> !(#[trigger] final(enemies)@[i]).dead(),
{
    let ghost alive = |e: Enemy| !e.dead();
    let mut kept: Vec<Enemy> = Vec::new();
    let mut i: usize = 0;
    proof {
        reveal(Seq::filter);
    }
    while i < enemies.len()
        invariant
            i <= enemies@.len(),
            kept@ == enemies@.take(i as int).filter(alive),
            alive == |e: Enemy| !e.dead(),
        decreases enemies@.len() - i,
    {
        let enemy = enemies[i];
        proof {
            reveal(Seq::filter);
            assert(enemies@.take(i + 1).drop_last() =~= enemies@.take(i as int));
        }
        if !enemy.is_dead() {
            kept.push(enemy);
        }
        i = i + 1;
    }
    proof {
        assert(enemies@.take(i as int) =~= enemies@);
        broadcast use vstd::seq_lib::group_filter_ensures;
    }
    *enemies = kept;
}

/// Moves every enemy for `delta` nanoseconds at `speed` toward the player.
/// Without a player nothing happens.
pub fn approach_player(enemies: &mut Vec<Enemy>, player: &Option<Player>, speed: u32, delta: u64)
    requires
        player.is_some() ==> {
            &&& player.unwrap().in_range()
            &&& glides(speed as int, delta)
            &&& forall|i: int|
                0 <= i < old(enemies)@.len() ==> (#[trigger] old(enemies)@[i]).in_range()
        },
    ensures
        player.is_none() ==> final(enemies)@ == old(enemies)@,
        player.is_some() ==> final(enemies)@ == old(enemies)@.map_values(
            |e: Enemy| e.stepped_toward(player.unwrap().planar(), speed, delta),
        ),
{
    let target = match player {
        Some(p) => p.position.truncate(),
        None => {
            return ;
        },
    };
    let ghost before = enemies@;
    let ghost step = |e: Enemy| e.stepped_toward(target, speed, delta);
    let mut i: usize = 0;
    while i < enemies.len()
        invariant
            i <= enemies@.len(),
            enemies@.len() == before.len(),
            target.in_range(),
            glides(speed as int, delta),
            step == |e: Enemy| e.stepped_toward(target, speed, delta),
            forall|k: int| 0 <= k < before.len() ==> (#[trigger] before[k]).in_range(),
            forall|k: int| i <= k < before.len() ==> #[trigger] enemies@[k] == before[k],
            forall|k: int| 0 <= k < i ==> #[trigger] enemies@[k] == step(before[k]),
        decreases enemies@.len() - i,
    {
        let mut enemy = enemies[i];
        enemy.approach(&target, speed, delta);
        enemies.set(i, enemy);
        i = i + 1;
    }
}

} // verus!
