//! The moving things of the game: the player, pipes, enemies and boosts,
//! each with its spawn rule, its per-frame motion and its hitbox invariant.
//!
//! Every length is measured in sub-pixel units, four to a pixel, so all the
//! speeds of the game (including the half-speed of the slow-down boost) are
//! whole numbers and a frame of motion is exact integer arithmetic.

use vstd::prelude::*;

verus! {

use crate::geometry::Rect;
use crate::num::{clamp_i64, sat_add};

// Motion constants, in sub-pixel units per frame.
pub const GRAVITY: i64 = 2;
pub const JUMP: i64 = 32;
pub const PIPE_SPEED: i64 = 18;
pub const ENEMY_SPEED: i64 = 22;
pub const BOOST_SPEED: i64 = 28;

// Obstacle speeds are scaled by the session's multiplier, measured in
// halves: 2 is full speed, 1 half speed, 3 one-and-a-half speed.
pub const MULT_SLOW: i64 = 1;
pub const MULT_NORMAL: i64 = 2;
pub const MULT_FAST: i64 = 3;

// The playing field, in sub-pixel units.
pub const SCREEN_WIDTH: i64 = 4096;
pub const SCREEN_HEIGHT: i64 = 3072;
pub const MIDDLE: i64 = 1408;
pub const FLOOR_LEVEL: i64 = 2732;
pub const PLAYER_X: i64 = 1024;

// Entity sizes, in sub-pixel units.
pub const FERRIS_WIDTH: i64 = 256;
pub const FERRIS_HEIGHT: i64 = 168;
pub const PIPE_WIDTH: i64 = 512;
pub const PIPE_GAP: i64 = 640;
pub const ENEMY_WIDTH: i64 = 512;
pub const ENEMY_HEIGHT: i64 = 336;
pub const BOOST_WIDTH: i64 = 256;
pub const BOOST_HEIGHT: i64 = 256;

// The second random draw of a boost spawn is taken from [0, BOOST_ROLL_MAX)
// and classified against the two thresholds below.
pub const BOOST_ROLL_MAX: i64 = 1800;
pub const BONUS_LIFE_ROLL: i64 = 200;
pub const SPEED_UP_ROLL: i64 = 1000;

/// The three phases of a round.
#[derive(Debug, PartialEq, Eq, Clone, Copy, Structural)]
pub enum PlayState {
    StartScreen,
    Play,
    Dead,
}

impl PlayState {
    /// True exactly in the `Play` phase, when timers run and collisions count.
    pub fn is_playing(&self) -> (r: bool)
        ensures
            r == (*self == PlayState::Play),
    {
        *self == PlayState::Play
    }

    /// Ends the round.
    pub fn set_dead(&mut self)
        ensures
            *final(self) == PlayState::Dead,
    {
        *self = PlayState::Dead;
    }
}

/// What a collected boost does to the session.
#[derive(Debug, PartialEq, Eq, Clone, Copy, Structural)]
pub enum BoostType {
    SpeedUp,
    SlowDown,
    BonusLife,
}

/// Vertical motion state of the player; the player never moves horizontally.
#[derive(Debug, PartialEq, Eq, Clone, Copy, Structural)]
pub struct Physics {
    pub velocity: i64,
    pub acceleration: i64,
}

impl Physics {
    pub fn new() -> (p: Physics)
        ensures
            p == (Physics { velocity: 0, acceleration: 0 }),
    {
        Physics { velocity: 0, acceleration: 0 }
    }
}

/// The player: a fixed horizontal position, a vertical position under
/// gravity, and a hitbox that follows the position.
#[derive(Debug, PartialEq, Eq, Clone, Copy, Structural)]
pub struct PlayerEntity {
    pub position_y: i64,
    pub physics: Physics,
    pub zone: Rect,
    pub can_jump: bool,
}

/// The player the session starts with: resting at the vertical midline.
pub open spec fn initial_player() -> PlayerEntity {
    PlayerEntity {
        position_y: MIDDLE,
        physics: Physics { velocity: 0, acceleration: 0 },
        zone: Rect {
            x: (PLAYER_X - FERRIS_WIDTH / 2) as i64,
            y: (MIDDLE - FERRIS_HEIGHT / 2) as i64,
            w: FERRIS_WIDTH,
            h: FERRIS_HEIGHT,
        },
        can_jump: true,
    }
}

/// Whether a press of the jump key is accepted this frame: the key must have
/// been seen released since the last jump.
pub open spec fn player_jump_ok(p: PlayerEntity, jump_held: bool) -> bool {
    p.can_jump || !jump_held
}

/// Whether the player jumps this frame.
pub open spec fn player_jumps(p: PlayerEntity, jump_pressed: bool, jump_held: bool) -> bool {
    jump_pressed && player_jump_ok(p, jump_held)
}

/// The play state after the player's input is taken: an accepted jump leaves
/// the start screen or the game-over screen for `Play`.
pub open spec fn player_state_step(
    p: PlayerEntity,
    st: PlayState,
    jump_pressed: bool,
    jump_held: bool,
) -> PlayState {
    if player_jumps(p, jump_pressed, jump_held) && (st == PlayState::StartScreen || st
        == PlayState::Dead) {
        PlayState::Play
    } else {
        st
    }
}

/// One frame of player motion: input, then the idle bounce of the start
/// screen, then one semi-implicit Euler step, then the ceiling clamp.
pub open spec fn player_step(
    p: PlayerEntity,
    st: PlayState,
    jump_pressed: bool,
    jump_held: bool,
) -> PlayerEntity {
    let jumps = player_jumps(p, jump_pressed, jump_held);
    let st1 = player_state_step(p, st, jump_pressed, jump_held);
    let auto = st1 == PlayState::StartScreen && p.position_y >= MIDDLE;
    let v1: int = if jumps || auto {
        -JUMP
    } else {
        p.physics.velocity as int
    };
    let v2: int = clamp_i64(v1 + GRAVITY);
    let y2: int = clamp_i64(p.position_y + v2);
    let y3: int = if y2 < FERRIS_HEIGHT / 2 {
        FERRIS_HEIGHT / 2
    } else {
        y2
    };
    PlayerEntity {
        position_y: y3 as i64,
        physics: Physics { velocity: v2 as i64, acceleration: GRAVITY },
        zone: Rect {
            x: (PLAYER_X - FERRIS_WIDTH / 2) as i64,
            y: (y3 - FERRIS_HEIGHT / 2) as i64,
            w: FERRIS_WIDTH,
            h: FERRIS_HEIGHT,
        },
        can_jump: if jumps {
            false
        } else {
            player_jump_ok(p, jump_held)
        },
    }
}

impl PlayerEntity {
    /// The hitbox follows the position by a fixed offset, the position never
    /// goes above the ceiling clamp, and the velocity never exceeds the jump
    /// impulse upward.
    pub open spec fn wf(self) -> bool {
        &&& self.zone.x == PLAYER_X - FERRIS_WIDTH / 2
        &&& self.zone.w == FERRIS_WIDTH
        &&& self.zone.h == FERRIS_HEIGHT
        &&& self.zone.y == self.position_y - FERRIS_HEIGHT / 2
        &&& self.position_y >= FERRIS_HEIGHT / 2
        &&& self.physics.velocity >= -JUMP
    }

    pub fn new() -> (p: PlayerEntity)
        ensures
            p == initial_player(),
            p.wf(),
    {
        PlayerEntity {
            position_y: MIDDLE,
            physics: Physics::new(),
            zone: Rect {
                x: PLAYER_X - FERRIS_WIDTH / 2,
                y: MIDDLE - FERRIS_HEIGHT / 2,
                w: FERRIS_WIDTH,
                h: FERRIS_HEIGHT,
            },
            can_jump: true,
        }
    }

    /// One frame of player input and motion. Returns the play state after
    /// the input is taken; the caller decides what to do with it.
    pub fn update(&mut self, state: &PlayState, jump_pressed: bool, jump_held: bool) -> (next:
        PlayState)
        requires
            old(self).wf(),
        ensures
            *final(self) == player_step(*old(self), *state, jump_pressed, jump_held),
            final(self).wf(),
            next == player_state_step(*old(self), *state, jump_pressed, jump_held),
    {
        self.physics.acceleration = GRAVITY;
        if !jump_held && !self.can_jump {
            self.can_jump = true;
        }
        let mut next_state = *state;
        if jump_pressed && self.can_jump {
            self.can_jump = false;
            PlayerEntity::jump(&mut self.physics);
            if next_state == PlayState::StartScreen || next_state == PlayState::Dead {
                next_state = PlayState::Play;
            }
        }
        if next_state == PlayState::StartScreen {
            self.auto_jump();
        }
        self.change_player_position();
        self.prevent_going_out();
        next_state
    }

    /// The jump impulse: straight to full upward speed.
    fn jump(physics: &mut Physics)
        ensures
            *final(physics) == (Physics { velocity: (-JUMP) as i64, acceleration: GRAVITY }),
    {
        physics.acceleration = GRAVITY;
        physics.velocity = -JUMP;
    }

    /// The idle bounce of the start screen: jump whenever the player would
    /// otherwise sink below the vertical midline.
    fn auto_jump(&mut self)
        ensures
            final(self).position_y == old(self).position_y,
            final(self).zone == old(self).zone,
            final(self).can_jump == old(self).can_jump,
            old(self).position_y >= MIDDLE ==> final(self).physics == (Physics {
                velocity: (-JUMP) as i64,
                acceleration: GRAVITY,
            }),
            old(self).position_y < MIDDLE ==> final(self).physics == old(self).physics,
    {
        if self.position_y >= MIDDLE {
            PlayerEntity::jump(&mut self.physics);
        }
    }

    /// One semi-implicit Euler step: the velocity takes the acceleration,
    /// the position takes the new velocity, the hitbox follows the position.
    fn change_player_position(&mut self)
        requires
            old(self).physics.acceleration == GRAVITY,
            old(self).physics.velocity >= -JUMP,
            old(self).position_y >= FERRIS_HEIGHT / 2,
        ensures
            final(self).physics.velocity as int == clamp_i64(
                old(self).physics.velocity + GRAVITY,
            ),
            final(self).physics.acceleration == GRAVITY,
            final(self).position_y as int == clamp_i64(
                old(self).position_y + final(self).physics.velocity,
            ),
            final(self).zone.y == final(self).position_y - FERRIS_HEIGHT / 2,
            final(self).zone.x == old(self).zone.x,
            final(self).zone.w == old(self).zone.w,
            final(self).zone.h == old(self).zone.h,
            final(self).can_jump == old(self).can_jump,
    {
        self.physics.velocity = sat_add(self.physics.velocity, self.physics.acceleration);
        self.position_y = sat_add(self.position_y, self.physics.velocity);
        self.zone.y = self.position_y - FERRIS_HEIGHT / 2;
    }

    /// The ceiling clamp: the player cannot slip above the top of the screen
    /// to pass over the pipes.
    fn prevent_going_out(&mut self)
        ensures
            old(self).position_y < FERRIS_HEIGHT / 2 ==> *final(self) == (PlayerEntity {
                position_y: (FERRIS_HEIGHT / 2) as i64,
                zone: Rect { y: 0, ..old(self).zone },
                ..*old(self)
            }),
            old(self).position_y >= FERRIS_HEIGHT / 2 ==> *final(self) == *old(self),
    {
        if self.position_y < FERRIS_HEIGHT / 2 {
            self.position_y = FERRIS_HEIGHT / 2;
            self.zone.y = 0;
        }
    }

    /// The reprieve for a spare life: the player is sent back to the
    /// vertical midline, hitbox in tow.
    pub fn prevent_hitting_ground(&mut self)
        ensures
            *final(self) == (PlayerEntity {
                position_y: MIDDLE,
                zone: Rect { y: (MIDDLE - FERRIS_HEIGHT / 2) as i64, ..old(self).zone },
                ..*old(self)
            }),
    {
        self.position_y = MIDDLE;
        self.zone.y = MIDDLE - FERRIS_HEIGHT / 2;
    }

    /// Whether the player has fallen past the floor level.
    pub fn hits_ground(&self) -> (r: bool)
        ensures
            r == (self.position_y > FLOOR_LEVEL),
    {
        self.position_y > FLOOR_LEVEL
    }
}

/// A pipe: a fixed gap the player must thread, with a hitbox above the gap
/// and one below.
#[derive(Debug, PartialEq, Eq, Clone, Copy, Structural)]
pub struct PipeEntity {
    pub x: i64,
    pub gap_top: i64,
    pub top_zone: Rect,
    pub bottom_zone: Rect,
    pub is_passed: bool,
}

/// A pipe as it spawns at the right edge, with its gap starting `gap_top`
/// below the top of the screen.
pub open spec fn pipe_spawn(gap_top: i64) -> PipeEntity {
    PipeEntity {
        x: (SCREEN_WIDTH + PIPE_WIDTH / 2) as i64,
        gap_top,
        top_zone: Rect { x: SCREEN_WIDTH, y: 0, w: PIPE_WIDTH, h: gap_top },
        bottom_zone: Rect {
            x: SCREEN_WIDTH,
            y: (gap_top + PIPE_GAP) as i64,
            w: PIPE_WIDTH,
            h: (SCREEN_HEIGHT - gap_top - PIPE_GAP) as i64,
        },
        is_passed: false,
    }
}

/// One frame of pipe motion at the given speed multiplier.
pub open spec fn pipe_step(p: PipeEntity, multiplier: i64) -> PipeEntity {
    let step = PIPE_SPEED * multiplier / 2;
    PipeEntity {
        x: (p.x - step) as i64,
        top_zone: Rect { x: (p.top_zone.x - step) as i64, ..p.top_zone },
        bottom_zone: Rect { x: (p.bottom_zone.x - step) as i64, ..p.bottom_zone },
        ..p
    }
}

impl PipeEntity {
    /// The two hitboxes hang from the pipe's position and leave exactly the
    /// gap between them: their heights and the gap always add up to the
    /// height of the screen.
    pub open spec fn wf(self) -> bool {
        &&& 0 <= self.gap_top
        &&& self.gap_top + PIPE_GAP <= SCREEN_HEIGHT
        &&& self.x <= SCREEN_WIDTH + PIPE_WIDTH / 2
        &&& self.top_zone.x == self.x - PIPE_WIDTH / 2
        &&& self.top_zone.y == 0
        &&& self.top_zone.w == PIPE_WIDTH
        &&& self.top_zone.h == self.gap_top
        &&& self.bottom_zone.x == self.x - PIPE_WIDTH / 2
        &&& self.bottom_zone.y == self.gap_top + PIPE_GAP
        &&& self.bottom_zone.w == PIPE_WIDTH
        &&& self.bottom_zone.h == SCREEN_HEIGHT - self.gap_top - PIPE_GAP
    }

    pub fn new(gap_top: i64) -> (p: PipeEntity)
        requires
            0 <= gap_top,
            gap_top + PIPE_GAP <= SCREEN_HEIGHT,
        ensures
            p == pipe_spawn(gap_top),
            p.wf(),
            p.top_zone.h + PIPE_GAP + p.bottom_zone.h == SCREEN_HEIGHT,
    {
        PipeEntity {
            x: SCREEN_WIDTH + PIPE_WIDTH / 2,
            gap_top,
            top_zone: Rect { x: SCREEN_WIDTH, y: 0, w: PIPE_WIDTH, h: gap_top },
            bottom_zone: Rect {
                x: SCREEN_WIDTH,
                y: gap_top + PIPE_GAP,
                w: PIPE_WIDTH,
                h: SCREEN_HEIGHT - gap_top - PIPE_GAP,
            },
            is_passed: false,
        }
    }

    /// One frame of leftward scroll; both hitboxes move with the pipe and
    /// the gap invariant is untouched.
    pub fn update(&mut self, multiplier: i64)
        requires
            old(self).wf(),
            MULT_SLOW <= multiplier <= MULT_FAST,
            old(self).x >= -PIPE_WIDTH,
        ensures
            *final(self) == pipe_step(*old(self), multiplier),
            final(self).wf(),
            final(self).top_zone.h + PIPE_GAP + final(self).bottom_zone.h == SCREEN_HEIGHT,
    {
        let step = PIPE_SPEED * multiplier / 2;
        self.x = self.x - step;
        self.top_zone.x = self.top_zone.x - step;
        self.bottom_zone.x = self.bottom_zone.x - step;
    }
}

/// An enemy: a single hitbox centred on its position.
#[derive(Debug, PartialEq, Eq, Clone, Copy, Structural)]
pub struct EnemyEntity {
    pub x: i64,
    pub y: i64,
    pub zone: Rect,
    pub is_passed: bool,
}

/// An enemy as it spawns at the right edge at height `y`.
pub open spec fn enemy_spawn(y: i64) -> EnemyEntity {
    EnemyEntity {
        x: (SCREEN_WIDTH + ENEMY_WIDTH / 2) as i64,
        y,
        zone: Rect {
            x: SCREEN_WIDTH,
            y: (y - ENEMY_HEIGHT / 2) as i64,
            w: ENEMY_WIDTH,
            h: ENEMY_HEIGHT,
        },
        is_passed: false,
    }
}

/// One frame of enemy motion at the given speed multiplier.
pub open spec fn enemy_step(e: EnemyEntity, multiplier: i64) -> EnemyEntity {
    let step = ENEMY_SPEED * multiplier / 2;
    EnemyEntity { x: (e.x - step) as i64, zone: Rect { x: (e.zone.x - step) as i64, ..e.zone }, ..e }
}

impl EnemyEntity {
    /// The hitbox is centred on the enemy's position.
    pub open spec fn wf(self) -> bool {
        &&& self.x <= SCREEN_WIDTH + ENEMY_WIDTH / 2
        &&& self.zone.x == self.x - ENEMY_WIDTH / 2
        &&& self.zone.y == self.y - ENEMY_HEIGHT / 2
        &&& self.zone.w == ENEMY_WIDTH
        &&& self.zone.h == ENEMY_HEIGHT
    }

    pub fn new(y: i64) -> (e: EnemyEntity)
        requires
            0 <= y <= SCREEN_HEIGHT,
        ensures
            e == enemy_spawn(y),
            e.wf(),
    {
        EnemyEntity {
            x: SCREEN_WIDTH + ENEMY_WIDTH / 2,
            y,
            zone: Rect {
                x: SCREEN_WIDTH,
                y: y - ENEMY_HEIGHT / 2,
                w: ENEMY_WIDTH,
                h: ENEMY_HEIGHT,
            },
            is_passed: false,
        }
    }

    /// One frame of leftward scroll.
    pub fn update(&mut self, multiplier: i64)
        requires
            old(self).wf(),
            MULT_SLOW <= multiplier <= MULT_FAST,
            old(self).x >= -ENEMY_WIDTH,
        ensures
            *final(self) == enemy_step(*old(self), multiplier),
            final(self).wf(),
    {
        let step = ENEMY_SPEED * multiplier / 2;
        self.x = self.x - step;
        self.zone.x = self.zone.x - step;
    }
}

/// Which effect a freshly rolled boost carries: a small band of the roll
/// gives a bonus life, a wider one a speed-up, the rest a slow-down.
pub open spec fn boost_effect_for(roll: i64) -> BoostType {
    if roll < BONUS_LIFE_ROLL {
        BoostType::BonusLife
    } else if roll < SPEED_UP_ROLL {
        BoostType::SpeedUp
    } else {
        BoostType::SlowDown
    }
}

/// A collectible boost: a single hitbox and the effect it grants.
#[derive(Debug, PartialEq, Eq, Clone, Copy, Structural)]
pub struct BoostEntity {
    pub x: i64,
    pub y: i64,
    pub zone: Rect,
    pub effect: BoostType,
    pub is_passed: bool,
    pub is_collected: bool,
}

/// A boost as it spawns at the right edge at height `y`, its effect chosen
/// by the second random draw `roll`.
pub open spec fn boost_spawn(y: i64, roll: i64) -> BoostEntity {
    BoostEntity {
        x: (SCREEN_WIDTH + BOOST_WIDTH / 2) as i64,
        y,
        zone: Rect {
            x: SCREEN_WIDTH,
            y: (y - BOOST_HEIGHT / 2) as i64,
            w: BOOST_WIDTH,
            h: BOOST_HEIGHT,
        },
        effect: boost_effect_for(roll),
        is_passed: false,
        is_collected: false,
    }
}

/// One frame of boost motion; boosts ignore the speed multiplier.
pub open spec fn boost_step(b: BoostEntity) -> BoostEntity {
    BoostEntity {
        x: (b.x - BOOST_SPEED) as i64,
        zone: Rect { x: (b.zone.x - BOOST_SPEED) as i64, ..b.zone },
        ..b
    }
}

impl BoostEntity {
    /// The hitbox is centred on the boost's position.
    pub open spec fn wf(self) -> bool {
        &&& self.x <= SCREEN_WIDTH + BOOST_WIDTH / 2
        &&& self.zone.x == self.x - BOOST_WIDTH / 2
        &&& self.zone.y == self.y - BOOST_HEIGHT / 2
        &&& self.zone.w == BOOST_WIDTH
        &&& self.zone.h == BOOST_HEIGHT
    }

    pub fn new(y: i64, roll: i64) -> (b: BoostEntity)
        requires
            0 <= y <= SCREEN_HEIGHT,
        ensures
            b == boost_spawn(y, roll),
            b.wf(),
            b.effect == boost_effect_for(roll),
    {
        let mut effect = BoostType::SlowDown;
        if roll < SPEED_UP_ROLL {
            effect = BoostType::SpeedUp;
        }
        if roll < BONUS_LIFE_ROLL {
            effect = BoostType::BonusLife;
        }
        BoostEntity {
            x: SCREEN_WIDTH + BOOST_WIDTH / 2,
            y,
            zone: Rect {
                x: SCREEN_WIDTH,
                y: y - BOOST_HEIGHT / 2,
                w: BOOST_WIDTH,
                h: BOOST_HEIGHT,
            },
            effect,
            is_passed: false,
            is_collected: false,
        }
    }

    /// One frame of leftward scroll.
    pub fn update(&mut self)
        requires
            old(self).wf(),
            old(self).x >= -BOOST_WIDTH,
        ensures
            *final(self) == boost_step(*old(self)),
            final(self).wf(),
    {
        self.x = self.x - BOOST_SPEED;
        self.zone.x = self.zone.x - BOOST_SPEED;
    }
}

/// The player after `n` frames of play with no jump input.
pub open spec fn player_after_frames(p: PlayerEntity, n: nat) -> PlayerEntity
    decreases n,
{
    if n == 0 {
        p
    } else {
        player_step(player_after_frames(p, (n - 1) as nat), PlayState::Play, false, false)
    }
}

/// Free fall matches its closed form: starting at rest, after `n` frames of
/// play with no jump input the velocity is `GRAVITY * n` and the position
/// has gained `GRAVITY * n * (n + 1) / 2` — exact discrete integration of
/// constant gravity, with no rounding.
pub proof fn lemma_free_fall(p: PlayerEntity, n: nat)
    requires
        p.wf(),
        p.physics.velocity == 0,
        n <= 1_000_000_000,
        p.position_y + GRAVITY * n * (n + 1) / 2 <= i64::MAX,
    ensures
        player_after_frames(p, n).physics.velocity == GRAVITY * n,
        player_after_frames(p, n).position_y == p.position_y + GRAVITY * n * (n + 1) / 2,
    decreases n,
{
    if n > 0 {
        let m = (n - 1) as nat;
        let pm = m * (m + 1);
        let pn = n * (n + 1);
        assert(pm + 2 * n == pn) by (nonlinear_arith)
            requires
                m + 1 == n,
                pm == m * (m + 1),
                pn == n * (n + 1),
        ;
        assert(GRAVITY * n * (n + 1) == 2 * pn) by (nonlinear_arith)
            requires
                pn == n * (n + 1),
        ;
        assert(GRAVITY * m * (m + 1) == 2 * pm) by (nonlinear_arith)
            requires
                pm == m * (m + 1),
        ;
        assert(GRAVITY * n * (n + 1) / 2 == pn);
        assert(GRAVITY * m * (m + 1) / 2 == pm);
        lemma_free_fall(p, m);
        let q = player_after_frames(p, m);
        assert(q.physics.velocity == GRAVITY * m && q.position_y == p.position_y + pm);
        assert(clamp_i64(q.physics.velocity + GRAVITY) == GRAVITY * n);
        assert(clamp_i64(q.position_y + GRAVITY * n) == p.position_y + pn);
    }
}

} // verus!
