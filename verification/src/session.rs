//! The session: the one owner of all game state, advanced one frame at a
//! time. Each frame runs a fixed pass — restart bookkeeping, timers, spawns,
//! player motion, collisions for pipes, enemies and boosts in that order,
//! the game-over check, and a mark-then-filter prune of every queue.

use vstd::prelude::*;

verus! {

use crate::entities::{
    boost_spawn,
    boost_step,
    enemy_spawn,
    enemy_step,
    initial_player,
    pipe_spawn,
    pipe_step,
    player_jumps,
    player_step,
    BoostEntity,
    BoostType,
    EnemyEntity,
    PipeEntity,
    PlayState,
    PlayerEntity,
    BOOST_ROLL_MAX,
    BOOST_WIDTH,
    ENEMY_WIDTH,
    FERRIS_HEIGHT,
    FLOOR_LEVEL,
    JUMP,
    PIPE_GAP,
    MIDDLE,
    MULT_FAST,
    MULT_NORMAL,
    MULT_SLOW,
    PIPE_WIDTH,
    SCREEN_HEIGHT,
    SCREEN_WIDTH,
};
use crate::geometry::{rects_overlap, Rect};
use crate::num::{clamp_i64, sat_add, sat_sub_elapsed};
use crate::rng::{fresh_rng, rand_in_range};

// Countdowns, in nanoseconds: the starting value of each spawn timer and
// the range each is redrawn from after a spawn.
pub const PIPE_SPAWN_FIRST_NS: i64 = 1_000_000_000;
pub const ENEMY_SPAWN_FIRST_NS: i64 = 10_000_000_000;
pub const BOOST_SPAWN_FIRST_NS: i64 = 10_000_000_000;
pub const PIPE_DELAY_MIN_NS: i64 = 1_000_000_000;
pub const PIPE_DELAY_MAX_NS: i64 = 4_500_000_000;
pub const ENEMY_DELAY_MIN_NS: i64 = 6_000_000_000;
pub const ENEMY_DELAY_MAX_NS: i64 = 12_000_000_000;
pub const BOOST_DELAY_MIN_NS: i64 = 10_000_000_000;
pub const BOOST_DELAY_MAX_NS: i64 = 30_000_000_000;

/// How long a speed boost lasts, in nanoseconds.
pub const BOOST_DURATION_NS: i64 = 10_000_000_000;

// The vertical range each entity kind spawns in, in sub-pixel units.
pub const PIPE_Y_MIN: i64 = 268;
pub const PIPE_Y_MAX: i64 = 1924;
pub const ENEMY_Y_MIN: i64 = 252;
pub const ENEMY_Y_MAX: i64 = 2820;
pub const BOOST_Y_MIN: i64 = 192;
pub const BOOST_Y_MAX: i64 = 2880;

/// What the outside world hands the session each frame: the elapsed time of
/// the last frame and the two samples of the jump key.
#[derive(Debug, Clone, Copy)]
pub struct FrameInput {
    pub delta_ns: u64,
    pub jump_pressed: bool,
    pub jump_held: bool,
}

/// What a frame asks of the outside world: the number of boost-collected
/// sounds to play, and whether the death sound fires.
#[derive(Debug, PartialEq, Eq, Clone, Copy, Structural)]
pub struct FrameOutput {
    pub boosts_collected: usize,
    pub died: bool,
}

/// A pipe as the queue may hold it between frames: well-formed, not yet
/// marked passed, and still right of the line where pipes are pruned.
pub open spec fn pipe_live(p: PipeEntity) -> bool {
    p.wf() && !p.is_passed && p.x > -(PIPE_WIDTH / 2)
}

/// An enemy as the queue may hold it between frames.
pub open spec fn enemy_live(e: EnemyEntity) -> bool {
    e.wf() && !e.is_passed && e.x > -(ENEMY_WIDTH / 2)
}

/// A boost as the queue may hold it between frames.
pub open spec fn boost_live(b: BoostEntity) -> bool {
    b.wf() && !b.is_passed && !b.is_collected && b.x > -(BOOST_WIDTH / 2)
}

/// The whole game: every entity queue and every scalar of a run.
pub struct MainState {
    pub player: PlayerEntity,
    pub pipes: Vec<PipeEntity>,
    pub enemies: Vec<EnemyEntity>,
    pub boosts: Vec<BoostEntity>,
    pub time_until_next_pipe: i64,
    pub time_until_next_enemy: i64,
    pub time_until_next_boost: i64,
    pub boost_duration: i64,
    pub multiplier: i64,
    pub hit_pipe: bool,
    pub hit_enemy: bool,
    pub has_boost: bool,
    pub play_state: PlayState,
    pub lives: i64,
    pub score: i64,
    pub best_score: i64,
    pub rng: rand::rngs::ThreadRng,
}

impl MainState {
    /// The session invariant between frames: the player and every queued
    /// entity are well-formed and live, the multiplier is one of its three
    /// values and is back to normal whenever no boost is active, and an
    /// active boost has time left on it.
    pub open spec fn wf(self) -> bool {
        &&& self.player.wf()
        &&& forall|i: int| 0 <= i < self.pipes@.len() ==> pipe_live(#[trigger] self.pipes@[i])
        &&& forall|i: int| 0 <= i < self.enemies@.len() ==> enemy_live(#[trigger] self.enemies@[i])
        &&& forall|i: int| 0 <= i < self.boosts@.len() ==> boost_live(#[trigger] self.boosts@[i])
        &&& MULT_SLOW <= self.multiplier <= MULT_FAST
        &&& (!self.has_boost ==> self.multiplier == MULT_NORMAL)
        &&& (self.has_boost ==> self.boost_duration > 0)
    }

    /// The scalar state every round begins with.
    pub open spec fn round_fresh(self) -> bool {
        &&& self.player == initial_player()
        &&& self.pipes@.len() == 0
        &&& self.enemies@.len() == 0
        &&& self.boosts@.len() == 0
        &&& self.time_until_next_pipe == PIPE_SPAWN_FIRST_NS
        &&& self.time_until_next_enemy == ENEMY_SPAWN_FIRST_NS
        &&& self.time_until_next_boost == BOOST_SPAWN_FIRST_NS
        &&& self.boost_duration == 0
        &&& self.multiplier == MULT_NORMAL
        &&& !self.hit_pipe
        &&& !self.hit_enemy
        &&& !self.has_boost
        &&& self.lives == 1
        &&& self.score == 0
    }

    /// A fresh session, waiting on the start screen with nothing spawned.
    pub fn new() -> (s: MainState)
        ensures
            s.wf(),
            s.round_fresh(),
            s.play_state == PlayState::StartScreen,
            s.best_score == 0,
    {
        MainState {
            player: PlayerEntity::new(),
            pipes: Vec::new(),
            enemies: Vec::new(),
            boosts: Vec::new(),
            time_until_next_pipe: PIPE_SPAWN_FIRST_NS,
            time_until_next_enemy: ENEMY_SPAWN_FIRST_NS,
            time_until_next_boost: BOOST_SPAWN_FIRST_NS,
            boost_duration: 0,
            multiplier: MULT_NORMAL,
            hit_pipe: false,
            hit_enemy: false,
            has_boost: false,
            play_state: PlayState::StartScreen,
            lives: 1,
            score: 0,
            best_score: 0,
            rng: fresh_rng(),
        }
    }

    /// Folds the finished round's score into the best score.
    fn swap_scores(&mut self)
        ensures
            final(self).best_score == if old(self).score > old(self).best_score {
                old(self).score
            } else {
                old(self).best_score
            },
            *final(self) == (MainState { best_score: final(self).best_score, ..*old(self) }),
    {
        if self.score > self.best_score {
            self.best_score = self.score;
        }
    }

    /// Resets everything of a finished round except the best score, which
    /// first takes the outgoing score. The state is set to `Dead`, not to
    /// the start screen: the game-over overlay stays up for exactly one more
    /// frame before the idle bounce resumes.
    fn restart(&mut self)
        ensures
            final(self).wf(),
            final(self).round_fresh(),
            final(self).play_state == PlayState::Dead,
            final(self).best_score == if old(self).score > old(self).best_score {
                old(self).score
            } else {
                old(self).best_score
            },
    {
        self.player = PlayerEntity::new();
        self.pipes = Vec::new();
        self.enemies = Vec::new();
        self.boosts = Vec::new();
        self.time_until_next_pipe = PIPE_SPAWN_FIRST_NS;
        self.time_until_next_enemy = ENEMY_SPAWN_FIRST_NS;
        self.time_until_next_boost = BOOST_SPAWN_FIRST_NS;
        self.boost_duration = 0;
        self.multiplier = MULT_NORMAL;
        self.hit_pipe = false;
        self.hit_enemy = false;
        self.has_boost = false;
        self.play_state = PlayState::Dead;
        self.swap_scores();
        self.lives = 1;
        self.score = 0;
    }

    /// Advances the spawn countdowns (only while playing) and the active
    /// boost's remaining duration; an expired boost hands the multiplier
    /// back to normal.
    fn tick(&mut self, delta_ns: u64)
        ensures
            final(self).time_until_next_pipe as int == if old(self).play_state == PlayState::Play {
                clamp_i64(old(self).time_until_next_pipe - delta_ns)
            } else {
                old(self).time_until_next_pipe as int
            },
            final(self).time_until_next_enemy as int == if old(self).play_state == PlayState::Play {
                clamp_i64(old(self).time_until_next_enemy - delta_ns)
            } else {
                old(self).time_until_next_enemy as int
            },
            final(self).time_until_next_boost as int == if old(self).play_state == PlayState::Play {
                clamp_i64(old(self).time_until_next_boost - delta_ns)
            } else {
                old(self).time_until_next_boost as int
            },
            !old(self).has_boost ==> final(self).has_boost == old(self).has_boost
                && final(self).boost_duration == old(self).boost_duration && final(self).multiplier
                == old(self).multiplier,
            old(self).has_boost ==> final(self).boost_duration as int == clamp_i64(
                old(self).boost_duration - delta_ns,
            ),
            old(self).has_boost && clamp_i64(old(self).boost_duration - delta_ns) <= 0
                ==> !final(self).has_boost && final(self).multiplier == MULT_NORMAL,
            old(self).has_boost && clamp_i64(old(self).boost_duration - delta_ns) > 0
                ==> final(self).has_boost && final(self).multiplier == old(self).multiplier,
            final(self).player == old(self).player,
            final(self).pipes@ == old(self).pipes@,
            final(self).enemies@ == old(self).enemies@,
            final(self).boosts@ == old(self).boosts@,
            final(self).hit_pipe == old(self).hit_pipe,
            final(self).hit_enemy == old(self).hit_enemy,
            final(self).play_state == old(self).play_state,
            final(self).lives == old(self).lives,
            final(self).score == old(self).score,
            final(self).best_score == old(self).best_score,
    {
        if self.play_state.is_playing() {
            self.time_until_next_pipe = sat_sub_elapsed(self.time_until_next_pipe, delta_ns);
            self.time_until_next_enemy = sat_sub_elapsed(self.time_until_next_enemy, delta_ns);
            self.time_until_next_boost = sat_sub_elapsed(self.time_until_next_boost, delta_ns);
        }
        if self.has_boost {
            self.boost_duration = sat_sub_elapsed(self.boost_duration, delta_ns);
            if self.boost_duration <= 0 {
                self.has_boost = false;
                self.multiplier = MULT_NORMAL;
            }
        }
    }
}

/// Every pipe a well-formed session holds leaves exactly the fixed gap
/// between its two hitboxes: their heights and the gap add up to the height
/// of the screen.
pub proof fn lemma_pipe_gap_invariant(s: MainState, i: int)
    requires
        s.wf(),
        0 <= i < s.pipes@.len(),
    ensures
        s.pipes@[i].top_zone.h + PIPE_GAP + s.pipes@[i].bottom_zone.h == SCREEN_HEIGHT,
{
    assert(pipe_live(s.pipes@[i]));
}

/// Whether a pipe, as it stands after this frame's motion, overlaps the
/// player hitbox `z` with either of its zones.
pub open spec fn pipe_hit(z: Rect, q: PipeEntity) -> bool {
    rects_overlap(z, q.top_zone) || rects_overlap(z, q.bottom_zone)
}

/// Whether a pipe, after this frame's motion, has scrolled fully past the
/// left edge and scores.
pub open spec fn pipe_gone(q: PipeEntity) -> bool {
    q.x <= -(PIPE_WIDTH / 2)
}

/// How many pipes of `s` hit the player hitbox `z` this frame, each taken
/// after its motion at multiplier `m`.
pub open spec fn count_pipe_hits(z: Rect, s: Seq<PipeEntity>, m: i64) -> int
    decreases s.len(),
{
    if s.len() == 0 {
        0
    } else {
        count_pipe_hits(z, s.drop_last(), m) + if pipe_hit(z, pipe_step(s.last(), m)) {
            1int
        } else {
            0int
        }
    }
}

/// How many pipes of `s` scroll fully past the left edge this frame.
pub open spec fn count_pipe_passes(s: Seq<PipeEntity>, m: i64) -> int
    decreases s.len(),
{
    if s.len() == 0 {
        0
    } else {
        count_pipe_passes(s.drop_last(), m) + if pipe_gone(pipe_step(s.last(), m)) {
            1int
        } else {
            0int
        }
    }
}

/// Both pipe counts are bounded by the length of the queue.
pub proof fn lemma_pipe_count_bounds(z: Rect, s: Seq<PipeEntity>, m: i64)
    ensures
        0 <= count_pipe_hits(z, s, m) <= s.len(),
        0 <= count_pipe_passes(s, m) <= s.len(),
    decreases s.len(),
{
    if s.len() > 0 {
        lemma_pipe_count_bounds(z, s.drop_last(), m);
    }
}

/// One pipe after the collision pass: moved, and marked passed if it cost a
/// life that was spared, or if it scrolled fully past. `lives_before` is the
/// life count as the scan reaches this pipe.
pub open spec fn marked_pipe(z: Rect, p: PipeEntity, m: i64, lives_before: int) -> PipeEntity {
    let q = pipe_step(p, m);
    PipeEntity {
        is_passed: q.is_passed || (pipe_hit(z, q) && lives_before - 1 > 0) || pipe_gone(q),
        ..q
    }
}

/// The whole pipe queue after the collision pass.
pub open spec fn marked_pipes(z: Rect, s: Seq<PipeEntity>, m: i64, lives: int) -> Seq<PipeEntity> {
    Seq::new(
        s.len(),
        |i: int| marked_pipe(z, s[i], m, clamp_i64(lives - count_pipe_hits(z, s.subrange(0, i), m))),
    )
}

/// The pipe queue after the prune pass: the pipes not marked passed, in
/// their order.
pub open spec fn kept_pipes(s: Seq<PipeEntity>) -> Seq<PipeEntity>
    decreases s.len(),
{
    if s.len() == 0 {
        Seq::empty()
    } else if s.last().is_passed {
        kept_pipes(s.drop_last())
    } else {
        kept_pipes(s.drop_last()).push(s.last())
    }
}

/// Pruning is idempotent: pruning an already pruned pipe queue changes
/// nothing.
pub proof fn lemma_prune_pipes_idempotent(s: Seq<PipeEntity>)
    ensures
        kept_pipes(kept_pipes(s)) == kept_pipes(s),
    decreases s.len(),
{
    if s.len() > 0 {
        lemma_prune_pipes_idempotent(s.drop_last());
        if !s.last().is_passed {
            let k = kept_pipes(s.drop_last());
            assert(k.push(s.last()).drop_last() =~= k);
            assert(k.push(s.last()).last() == s.last());
        }
    }
}

/// Every pipe that survives the prune satisfies whatever held of every pipe
/// before it, and is not marked passed.
pub proof fn lemma_kept_pipes_all(s: Seq<PipeEntity>, q: spec_fn(PipeEntity) -> bool)
    requires
        forall|i: int| 0 <= i < s.len() ==> q(#[trigger] s[i]),
    ensures
        forall|j: int|
            0 <= j < kept_pipes(s).len() ==> q(#[trigger] kept_pipes(s)[j]) && !kept_pipes(
                s,
            )[j].is_passed,
    decreases s.len(),
{
    if s.len() > 0 {
        assert(forall|i: int| 0 <= i < s.drop_last().len() ==> q(#[trigger] s.drop_last()[i]));
        lemma_kept_pipes_all(s.drop_last(), q);
        if !s.last().is_passed {
            let k = kept_pipes(s.drop_last());
            assert(q(s[s.len() - 1]));
            assert(forall|j: int|
                0 <= j < kept_pipes(s).len() ==> kept_pipes(s)[j] == if j < k.len() {
                    k[j]
                } else {
                    s.last()
                });
        }
    }
}

impl MainState {
    /// The pipe collision pass: every pipe moves one frame left, a pipe
    /// whose zones overlap the player costs a life — spared lives mark the
    /// pipe passed, the last life raises the fatal pipe fault instead — and
    /// every pipe fully past the left edge scores a point and is marked
    /// passed.
    fn collide_pipes(&mut self)
        requires
            MULT_SLOW <= old(self).multiplier <= MULT_FAST,
            forall|i: int|
                0 <= i < old(self).pipes@.len() ==> (#[trigger] old(self).pipes@[i]).wf() && old(
                    self,
                ).pipes@[i].x >= -PIPE_WIDTH,
        ensures
            final(self).pipes@ == marked_pipes(
                old(self).player.zone,
                old(self).pipes@,
                old(self).multiplier,
                old(self).lives as int,
            ),
            final(self).lives as int == clamp_i64(
                old(self).lives - count_pipe_hits(
                    old(self).player.zone,
                    old(self).pipes@,
                    old(self).multiplier,
                ),
            ),
            final(self).score as int == clamp_i64(
                old(self).score + count_pipe_passes(old(self).pipes@, old(self).multiplier),
            ),
            final(self).hit_pipe == (old(self).hit_pipe || (count_pipe_hits(
                old(self).player.zone,
                old(self).pipes@,
                old(self).multiplier,
            ) >= 1 && old(self).lives <= count_pipe_hits(
                old(self).player.zone,
                old(self).pipes@,
                old(self).multiplier,
            ))),
            final(self).player == old(self).player,
            final(self).enemies@ == old(self).enemies@,
            final(self).boosts@ == old(self).boosts@,
            final(self).time_until_next_pipe == old(self).time_until_next_pipe,
            final(self).time_until_next_enemy == old(self).time_until_next_enemy,
            final(self).time_until_next_boost == old(self).time_until_next_boost,
            final(self).boost_duration == old(self).boost_duration,
            final(self).multiplier == old(self).multiplier,
            final(self).hit_enemy == old(self).hit_enemy,
            final(self).has_boost == old(self).has_boost,
            final(self).play_state == old(self).play_state,
            final(self).best_score == old(self).best_score,
    {
        let ghost z = self.player.zone;
        let ghost s0 = self.pipes@;
        let ghost lives0 = self.lives;
        let m = self.multiplier;
        let n = self.pipes.len();
        let mut i: usize = 0;
        while i < n
            invariant
                i <= n,
                n == self.pipes@.len(),
                n == s0.len(),
                m == old(self).multiplier,
                MULT_SLOW <= m <= MULT_FAST,
                z == old(self).player.zone,
                s0 == old(self).pipes@,
                lives0 == old(self).lives,
                forall|j: int| 0 <= j < n ==> (#[trigger] s0[j]).wf() && s0[j].x >= -PIPE_WIDTH,
                forall|j: int| i <= j < n ==> self.pipes@[j] == s0[j],
                forall|j: int|
                    0 <= j < i ==> self.pipes@[j] == marked_pipe(
                        z,
                        s0[j],
                        m,
                        clamp_i64(lives0 - count_pipe_hits(z, s0.subrange(0, j), m)),
                    ),
                self.lives as int == clamp_i64(
                    lives0 - count_pipe_hits(z, s0.subrange(0, i as int), m),
                ),
                self.score as int == clamp_i64(
                    old(self).score + count_pipe_passes(s0.subrange(0, i as int), m),
                ),
                self.hit_pipe == (old(self).hit_pipe || (count_pipe_hits(
                    z,
                    s0.subrange(0, i as int),
                    m,
                ) >= 1 && lives0 <= count_pipe_hits(z, s0.subrange(0, i as int), m))),
                self.player == old(self).player,
                self.enemies@ == old(self).enemies@,
                self.boosts@ == old(self).boosts@,
                self.time_until_next_pipe == old(self).time_until_next_pipe,
                self.time_until_next_enemy == old(self).time_until_next_enemy,
                self.time_until_next_boost == old(self).time_until_next_boost,
                self.boost_duration == old(self).boost_duration,
                self.multiplier == old(self).multiplier,
                self.hit_enemy == old(self).hit_enemy,
                self.has_boost == old(self).has_boost,
                self.play_state == old(self).play_state,
                self.best_score == old(self).best_score,
            decreases n - i,
        {
            proof {
                assert(s0.subrange(0, i + 1).drop_last() =~= s0.subrange(0, i as int));
                assert(s0.subrange(0, i + 1).last() == s0[i as int]);
                lemma_pipe_count_bounds(z, s0.subrange(0, i as int), m);
                lemma_pipe_count_bounds(z, s0.subrange(0, i + 1), m);
            }
            let ghost lives_before = self.lives as int;
            let mut p = self.pipes[i];
            p.update(m);
            if self.player.zone.overlaps(&p.bottom_zone) || self.player.zone.overlaps(&p.top_zone) {
                self.lives = sat_add(self.lives, -1);
                if self.lives > 0 {
                    p.is_passed = true;
                } else {
                    self.hit_pipe = true;
                }
            }
            if p.x <= -(PIPE_WIDTH / 2) {
                self.score = sat_add(self.score, 1);
                p.is_passed = true;
            }
            self.pipes[i] = p;
            i = i + 1;
        }
        proof {
            assert(s0.subrange(0, n as int) =~= s0);
            assert(self.pipes@ =~= marked_pipes(z, s0, m, lives0 as int));
        }
    }

    /// The pipe prune pass: drops every pipe marked passed, keeping the
    /// rest in order.
    pub fn prune_pipes(&mut self)
        ensures
            final(self).pipes@ == kept_pipes(old(self).pipes@),
            *final(self) == (MainState { pipes: final(self).pipes, ..*old(self) }),
    {
        let ghost s0 = self.pipes@;
        let n = self.pipes.len();
        let mut out: Vec<PipeEntity> = Vec::new();
        let mut i: usize = 0;
        while i < n
            invariant
                i <= n,
                n == self.pipes@.len(),
                s0 == self.pipes@,
                out@ == kept_pipes(s0.subrange(0, i as int)),
            decreases n - i,
        {
            proof {
                assert(s0.subrange(0, i + 1).drop_last() =~= s0.subrange(0, i as int));
                assert(s0.subrange(0, i + 1).last() == s0[i as int]);
            }
            let p = self.pipes[i];
            if !p.is_passed {
                out.push(p);
            }
            i = i + 1;
        }
        proof {
            assert(s0.subrange(0, n as int) =~= s0);
        }
        self.pipes = out;
    }
}

/// Whether an enemy, after this frame's motion, overlaps the player hitbox.
pub open spec fn enemy_hit(z: Rect, q: EnemyEntity) -> bool {
    rects_overlap(z, q.zone)
}

/// Whether an enemy, after this frame's motion, has scrolled fully past the
/// left edge.
pub open spec fn enemy_gone(q: EnemyEntity) -> bool {
    q.x <= -(ENEMY_WIDTH / 2)
}

/// How many enemies of `s` hit the player hitbox `z` this frame, each taken
/// after its motion at multiplier `m`.
pub open spec fn count_enemy_hits(z: Rect, s: Seq<EnemyEntity>, m: i64) -> int
    decreases s.len(),
{
    if s.len() == 0 {
        0
    } else {
        count_enemy_hits(z, s.drop_last(), m) + if enemy_hit(z, enemy_step(s.last(), m)) {
            1int
        } else {
            0int
        }
    }
}

/// The enemy count is bounded by the length of the queue.
pub proof fn lemma_enemy_count_bounds(z: Rect, s: Seq<EnemyEntity>, m: i64)
    ensures
        0 <= count_enemy_hits(z, s, m) <= s.len(),
    decreases s.len(),
{
    if s.len() > 0 {
        lemma_enemy_count_bounds(z, s.drop_last(), m);
    }
}

/// One enemy after the collision pass: moved, and marked passed if it cost
/// a spared life or scrolled fully past. Enemies award no score.
pub open spec fn marked_enemy(z: Rect, e: EnemyEntity, m: i64, lives_before: int) -> EnemyEntity {
    let q = enemy_step(e, m);
    EnemyEntity {
        is_passed: q.is_passed || (enemy_hit(z, q) && lives_before - 1 > 0) || enemy_gone(q),
        ..q
    }
}

/// The whole enemy queue after the collision pass.
pub open spec fn marked_enemies(z: Rect, s: Seq<EnemyEntity>, m: i64, lives: int) -> Seq<
    EnemyEntity,
> {
    Seq::new(
        s.len(),
        |i: int|
            marked_enemy(z, s[i], m, clamp_i64(lives - count_enemy_hits(z, s.subrange(0, i), m))),
    )
}

/// The enemy queue after the prune pass.
pub open spec fn kept_enemies(s: Seq<EnemyEntity>) -> Seq<EnemyEntity>
    decreases s.len(),
{
    if s.len() == 0 {
        Seq::empty()
    } else if s.last().is_passed {
        kept_enemies(s.drop_last())
    } else {
        kept_enemies(s.drop_last()).push(s.last())
    }
}

/// Pruning is idempotent: pruning an already pruned enemy queue changes
/// nothing.
pub proof fn lemma_prune_enemies_idempotent(s: Seq<EnemyEntity>)
    ensures
        kept_enemies(kept_enemies(s)) == kept_enemies(s),
    decreases s.len(),
{
    if s.len() > 0 {
        lemma_prune_enemies_idempotent(s.drop_last());
        if !s.last().is_passed {
            let k = kept_enemies(s.drop_last());
            assert(k.push(s.last()).drop_last() =~= k);
            assert(k.push(s.last()).last() == s.last());
        }
    }
}

/// Every enemy that survives the prune satisfies whatever held of every
/// enemy before it, and is not marked passed.
pub proof fn lemma_kept_enemies_all(s: Seq<EnemyEntity>, q: spec_fn(EnemyEntity) -> bool)
    requires
        forall|i: int| 0 <= i < s.len() ==> q(#[trigger] s[i]),
    ensures
        forall|j: int|
            0 <= j < kept_enemies(s).len() ==> q(#[trigger] kept_enemies(s)[j]) && !kept_enemies(
                s,
            )[j].is_passed,
    decreases s.len(),
{
    if s.len() > 0 {
        assert(forall|i: int| 0 <= i < s.drop_last().len() ==> q(#[trigger] s.drop_last()[i]));
        lemma_kept_enemies_all(s.drop_last(), q);
        if !s.last().is_passed {
            let k = kept_enemies(s.drop_last());
            assert(q(s[s.len() - 1]));
            assert(forall|j: int|
                0 <= j < kept_enemies(s).len() ==> kept_enemies(s)[j] == if j < k.len() {
                    k[j]
                } else {
                    s.last()
                });
        }
    }
}

impl MainState {
    /// The enemy collision pass: like the pipe pass, but an enemy passing
    /// off screen awards no score.
    fn collide_enemies(&mut self)
        requires
            MULT_SLOW <= old(self).multiplier <= MULT_FAST,
            forall|i: int|
                0 <= i < old(self).enemies@.len() ==> (#[trigger] old(self).enemies@[i]).wf()
                    && old(self).enemies@[i].x >= -ENEMY_WIDTH,
        ensures
            final(self).enemies@ == marked_enemies(
                old(self).player.zone,
                old(self).enemies@,
                old(self).multiplier,
                old(self).lives as int,
            ),
            final(self).lives as int == clamp_i64(
                old(self).lives - count_enemy_hits(
                    old(self).player.zone,
                    old(self).enemies@,
                    old(self).multiplier,
                ),
            ),
            final(self).hit_enemy == (old(self).hit_enemy || (count_enemy_hits(
                old(self).player.zone,
                old(self).enemies@,
                old(self).multiplier,
            ) >= 1 && old(self).lives <= count_enemy_hits(
                old(self).player.zone,
                old(self).enemies@,
                old(self).multiplier,
            ))),
            final(self).player == old(self).player,
            final(self).pipes@ == old(self).pipes@,
            final(self).boosts@ == old(self).boosts@,
            final(self).time_until_next_pipe == old(self).time_until_next_pipe,
            final(self).time_until_next_enemy == old(self).time_until_next_enemy,
            final(self).time_until_next_boost == old(self).time_until_next_boost,
            final(self).boost_duration == old(self).boost_duration,
            final(self).multiplier == old(self).multiplier,
            final(self).hit_pipe == old(self).hit_pipe,
            final(self).has_boost == old(self).has_boost,
            final(self).play_state == old(self).play_state,
            final(self).score == old(self).score,
            final(self).best_score == old(self).best_score,
    {
        let ghost z = self.player.zone;
        let ghost s0 = self.enemies@;
        let ghost lives0 = self.lives;
        let m = self.multiplier;
        let n = self.enemies.len();
        let mut i: usize = 0;
        while i < n
            invariant
                i <= n,
                n == self.enemies@.len(),
                n == s0.len(),
                m == old(self).multiplier,
                MULT_SLOW <= m <= MULT_FAST,
                z == old(self).player.zone,
                s0 == old(self).enemies@,
                lives0 == old(self).lives,
                forall|j: int| 0 <= j < n ==> (#[trigger] s0[j]).wf() && s0[j].x >= -ENEMY_WIDTH,
                forall|j: int| i <= j < n ==> self.enemies@[j] == s0[j],
                forall|j: int|
                    0 <= j < i ==> self.enemies@[j] == marked_enemy(
                        z,
                        s0[j],
                        m,
                        clamp_i64(lives0 - count_enemy_hits(z, s0.subrange(0, j), m)),
                    ),
                self.lives as int == clamp_i64(
                    lives0 - count_enemy_hits(z, s0.subrange(0, i as int), m),
                ),
                self.hit_enemy == (old(self).hit_enemy || (count_enemy_hits(
                    z,
                    s0.subrange(0, i as int),
                    m,
                ) >= 1 && lives0 <= count_enemy_hits(z, s0.subrange(0, i as int), m))),
                self.player == old(self).player,
                self.pipes@ == old(self).pipes@,
                self.boosts@ == old(self).boosts@,
                self.time_until_next_pipe == old(self).time_until_next_pipe,
                self.time_until_next_enemy == old(self).time_until_next_enemy,
                self.time_until_next_boost == old(self).time_until_next_boost,
                self.boost_duration == old(self).boost_duration,
                self.multiplier == old(self).multiplier,
                self.hit_pipe == old(self).hit_pipe,
                self.has_boost == old(self).has_boost,
                self.play_state == old(self).play_state,
                self.score == old(self).score,
                self.best_score == old(self).best_score,
            decreases n - i,
        {
            proof {
                assert(s0.subrange(0, i + 1).drop_last() =~= s0.subrange(0, i as int));
                assert(s0.subrange(0, i + 1).last() == s0[i as int]);
                lemma_enemy_count_bounds(z, s0.subrange(0, i as int), m);
                lemma_enemy_count_bounds(z, s0.subrange(0, i + 1), m);
            }
            let mut e = self.enemies[i];
            e.update(m);
            if self.player.zone.overlaps(&e.zone) {
                self.lives = sat_add(self.lives, -1);
                if self.lives > 0 {
                    e.is_passed = true;
                } else {
                    self.hit_enemy = true;
                }
            }
            if e.x <= -(ENEMY_WIDTH / 2) {
                e.is_passed = true;
            }
            self.enemies[i] = e;
            i = i + 1;
        }
        proof {
            assert(s0.subrange(0, n as int) =~= s0);
            assert(self.enemies@ =~= marked_enemies(z, s0, m, lives0 as int));
        }
    }

    /// The enemy prune pass: drops every enemy marked passed.
    pub fn prune_enemies(&mut self)
        ensures
            final(self).enemies@ == kept_enemies(old(self).enemies@),
            *final(self) == (MainState { enemies: final(self).enemies, ..*old(self) }),
    {
        let ghost s0 = self.enemies@;
        let n = self.enemies.len();
        let mut out: Vec<EnemyEntity> = Vec::new();
        let mut i: usize = 0;
        while i < n
            invariant
                i <= n,
                n == self.enemies@.len(),
                s0 == self.enemies@,
                out@ == kept_enemies(s0.subrange(0, i as int)),
            decreases n - i,
        {
            proof {
                assert(s0.subrange(0, i + 1).drop_last() =~= s0.subrange(0, i as int));
                assert(s0.subrange(0, i + 1).last() == s0[i as int]);
            }
            let e = self.enemies[i];
            if !e.is_passed {
                out.push(e);
            }
            i = i + 1;
        }
        proof {
            assert(s0.subrange(0, n as int) =~= s0);
        }
        self.enemies = out;
    }
}

/// Whether a boost, after this frame's motion, overlaps the player hitbox
/// and is collected.
pub open spec fn boost_grab(z: Rect, q: BoostEntity) -> bool {
    rects_overlap(z, q.zone)
}

/// Whether a boost, after this frame's motion, has scrolled fully past the
/// left edge uncollected.
pub open spec fn boost_gone(q: BoostEntity) -> bool {
    q.x <= -(BOOST_WIDTH / 2)
}

/// How many boosts of `s` the player collects this frame.
pub open spec fn count_boost_grabs(z: Rect, s: Seq<BoostEntity>) -> int
    decreases s.len(),
{
    if s.len() == 0 {
        0
    } else {
        count_boost_grabs(z, s.drop_last()) + if boost_grab(z, boost_step(s.last())) {
            1int
        } else {
            0int
        }
    }
}

/// How many collected boosts of `s` grant a bonus life this frame.
pub open spec fn count_bonus_grabs(z: Rect, s: Seq<BoostEntity>) -> int
    decreases s.len(),
{
    if s.len() == 0 {
        0
    } else {
        count_bonus_grabs(z, s.drop_last()) + if boost_grab(z, boost_step(s.last()))
            && s.last().effect == BoostType::BonusLife {
            1int
        } else {
            0int
        }
    }
}

/// The speed effect left standing after the boost pass: that of the last
/// collected speed-affecting boost of the scan, if any. Bonus lives do not
/// touch the speed state.
pub open spec fn last_speed_grab(z: Rect, s: Seq<BoostEntity>) -> Option<BoostType>
    decreases s.len(),
{
    if s.len() == 0 {
        None
    } else if boost_grab(z, boost_step(s.last())) && s.last().effect != BoostType::BonusLife {
        Some(s.last().effect)
    } else {
        last_speed_grab(z, s.drop_last())
    }
}

/// The boost counts are bounded by the length of the queue, and the last
/// collected speed effect is never a bonus life.
pub proof fn lemma_boost_count_bounds(z: Rect, s: Seq<BoostEntity>)
    ensures
        0 <= count_boost_grabs(z, s) <= s.len(),
        0 <= count_bonus_grabs(z, s) <= s.len(),
        last_speed_grab(z, s) != Some(BoostType::BonusLife),
    decreases s.len(),
{
    if s.len() > 0 {
        lemma_boost_count_bounds(z, s.drop_last());
    }
}

/// One boost after the collision pass: moved, marked collected on overlap,
/// and marked passed once fully past the left edge.
pub open spec fn marked_boost(z: Rect, b: BoostEntity) -> BoostEntity {
    let q = boost_step(b);
    BoostEntity {
        is_collected: q.is_collected || boost_grab(z, q),
        is_passed: q.is_passed || boost_gone(q),
        ..q
    }
}

/// The whole boost queue after the collision pass.
pub open spec fn marked_boosts(z: Rect, s: Seq<BoostEntity>) -> Seq<BoostEntity> {
    Seq::new(s.len(), |i: int| marked_boost(z, s[i]))
}

/// The boost queue after the prune pass: boosts neither passed nor
/// collected, in their order.
pub open spec fn kept_boosts(s: Seq<BoostEntity>) -> Seq<BoostEntity>
    decreases s.len(),
{
    if s.len() == 0 {
        Seq::empty()
    } else if s.last().is_passed || s.last().is_collected {
        kept_boosts(s.drop_last())
    } else {
        kept_boosts(s.drop_last()).push(s.last())
    }
}

/// Pruning is idempotent: pruning an already pruned boost queue changes
/// nothing.
pub proof fn lemma_prune_boosts_idempotent(s: Seq<BoostEntity>)
    ensures
        kept_boosts(kept_boosts(s)) == kept_boosts(s),
    decreases s.len(),
{
    if s.len() > 0 {
        lemma_prune_boosts_idempotent(s.drop_last());
        if !s.last().is_passed && !s.last().is_collected {
            let k = kept_boosts(s.drop_last());
            assert(k.push(s.last()).drop_last() =~= k);
            assert(k.push(s.last()).last() == s.last());
        }
    }
}

/// Every boost that survives the prune satisfies whatever held of every
/// boost before it, and is neither passed nor collected.
pub proof fn lemma_kept_boosts_all(s: Seq<BoostEntity>, q: spec_fn(BoostEntity) -> bool)
    requires
        forall|i: int| 0 <= i < s.len() ==> q(#[trigger] s[i]),
    ensures
        forall|j: int|
            0 <= j < kept_boosts(s).len() ==> q(#[trigger] kept_boosts(s)[j]) && !kept_boosts(
                s,
            )[j].is_passed && !kept_boosts(s)[j].is_collected,
    decreases s.len(),
{
    if s.len() > 0 {
        assert(forall|i: int| 0 <= i < s.drop_last().len() ==> q(#[trigger] s.drop_last()[i]));
        lemma_kept_boosts_all(s.drop_last(), q);
        if !s.last().is_passed && !s.last().is_collected {
            let k = kept_boosts(s.drop_last());
            assert(q(s[s.len() - 1]));
            assert(forall|j: int|
                0 <= j < kept_boosts(s).len() ==> kept_boosts(s)[j] == if j < k.len() {
                    k[j]
                } else {
                    s.last()
                });
        }
    }
}

impl MainState {
    /// The boost collision pass: every boost moves one frame left at its own
    /// speed, a boost overlapping the player is collected and applies its
    /// effect — a bonus life, or a speed change that restarts the boost
    /// clock — and an uncollected boost fully past the left edge is marked
    /// passed. Returns how many boosts were collected, one sound each.
    fn collide_boosts(&mut self) -> (collected: usize)
        requires
            forall|i: int|
                0 <= i < old(self).boosts@.len() ==> (#[trigger] old(self).boosts@[i]).wf() && old(
                    self,
                ).boosts@[i].x >= -BOOST_WIDTH,
        ensures
            final(self).boosts@ == marked_boosts(old(self).player.zone, old(self).boosts@),
            collected as int == count_boost_grabs(old(self).player.zone, old(self).boosts@),
            final(self).lives as int == clamp_i64(
                old(self).lives + count_bonus_grabs(old(self).player.zone, old(self).boosts@),
            ),
            last_speed_grab(old(self).player.zone, old(self).boosts@) == Some(BoostType::SpeedUp)
                ==> final(self).has_boost && final(self).boost_duration == BOOST_DURATION_NS
                && final(self).multiplier == MULT_FAST,
            last_speed_grab(old(self).player.zone, old(self).boosts@) == Some(BoostType::SlowDown)
                ==> final(self).has_boost && final(self).boost_duration == BOOST_DURATION_NS
                && final(self).multiplier == MULT_SLOW,
            last_speed_grab(old(self).player.zone, old(self).boosts@) is None
                ==> final(self).has_boost == old(self).has_boost
                && final(self).boost_duration == old(self).boost_duration
                && final(self).multiplier == old(self).multiplier,
            final(self).player == old(self).player,
            final(self).pipes@ == old(self).pipes@,
            final(self).enemies@ == old(self).enemies@,
            final(self).time_until_next_pipe == old(self).time_until_next_pipe,
            final(self).time_until_next_enemy == old(self).time_until_next_enemy,
            final(self).time_until_next_boost == old(self).time_until_next_boost,
            final(self).hit_pipe == old(self).hit_pipe,
            final(self).hit_enemy == old(self).hit_enemy,
            final(self).play_state == old(self).play_state,
            final(self).score == old(self).score,
            final(self).best_score == old(self).best_score,
    {
        let ghost z = self.player.zone;
        let ghost s0 = self.boosts@;
        let ghost lives0 = self.lives;
        let n = self.boosts.len();
        let mut collected: usize = 0;
        let mut i: usize = 0;
        while i < n
            invariant
                i <= n,
                n == self.boosts@.len(),
                n == s0.len(),
                z == old(self).player.zone,
                s0 == old(self).boosts@,
                lives0 == old(self).lives,
                forall|j: int| 0 <= j < n ==> (#[trigger] s0[j]).wf() && s0[j].x >= -BOOST_WIDTH,
                forall|j: int| i <= j < n ==> self.boosts@[j] == s0[j],
                forall|j: int| 0 <= j < i ==> self.boosts@[j] == marked_boost(z, s0[j]),
                collected as int == count_boost_grabs(z, s0.subrange(0, i as int)),
                self.lives as int == clamp_i64(
                    lives0 + count_bonus_grabs(z, s0.subrange(0, i as int)),
                ),
                last_speed_grab(z, s0.subrange(0, i as int)) == Some(BoostType::SpeedUp)
                    ==> self.has_boost && self.boost_duration == BOOST_DURATION_NS
                    && self.multiplier == MULT_FAST,
                last_speed_grab(z, s0.subrange(0, i as int)) == Some(BoostType::SlowDown)
                    ==> self.has_boost && self.boost_duration == BOOST_DURATION_NS
                    && self.multiplier == MULT_SLOW,
                last_speed_grab(z, s0.subrange(0, i as int)) is None ==> self.has_boost == old(self).has_boost
                    && self.boost_duration == old(self).boost_duration
                    && self.multiplier == old(self).multiplier,
                self.player == old(self).player,
                self.pipes@ == old(self).pipes@,
                self.enemies@ == old(self).enemies@,
                self.time_until_next_pipe == old(self).time_until_next_pipe,
                self.time_until_next_enemy == old(self).time_until_next_enemy,
                self.time_until_next_boost == old(self).time_until_next_boost,
                self.hit_pipe == old(self).hit_pipe,
                self.hit_enemy == old(self).hit_enemy,
                self.play_state == old(self).play_state,
                self.score == old(self).score,
                self.best_score == old(self).best_score,
            decreases n - i,
        {
            proof {
                assert(s0.subrange(0, i + 1).drop_last() =~= s0.subrange(0, i as int));
                assert(s0.subrange(0, i + 1).last() == s0[i as int]);
                lemma_boost_count_bounds(z, s0.subrange(0, i as int));
                lemma_boost_count_bounds(z, s0.subrange(0, i + 1));
            }
            let mut b = self.boosts[i];
            b.update();
            if self.player.zone.overlaps(&b.zone) {
                b.is_collected = true;
                collected = collected + 1;
                match b.effect {
                    BoostType::BonusLife => {
                        self.lives = sat_add(self.lives, 1);
                    },
                    BoostType::SlowDown => {
                        self.has_boost = true;
                        self.boost_duration = BOOST_DURATION_NS;
                        self.multiplier = MULT_SLOW;
                    },
                    BoostType::SpeedUp => {
                        self.has_boost = true;
                        self.boost_duration = BOOST_DURATION_NS;
                        self.multiplier = MULT_FAST;
                    },
                }
            }
            if b.x <= -(BOOST_WIDTH / 2) {
                b.is_passed = true;
            }
            self.boosts[i] = b;
            i = i + 1;
        }
        proof {
            assert(s0.subrange(0, n as int) =~= s0);
            assert(self.boosts@ =~= marked_boosts(z, s0));
        }
        collected
    }

    /// The boost prune pass: drops every boost marked passed or collected.
    pub fn prune_boosts(&mut self)
        ensures
            final(self).boosts@ == kept_boosts(old(self).boosts@),
            *final(self) == (MainState { boosts: final(self).boosts, ..*old(self) }),
    {
        let ghost s0 = self.boosts@;
        let n = self.boosts.len();
        let mut out: Vec<BoostEntity> = Vec::new();
        let mut i: usize = 0;
        while i < n
            invariant
                i <= n,
                n == self.boosts@.len(),
                s0 == self.boosts@,
                out@ == kept_boosts(s0.subrange(0, i as int)),
            decreases n - i,
        {
            proof {
                assert(s0.subrange(0, i + 1).drop_last() =~= s0.subrange(0, i as int));
                assert(s0.subrange(0, i + 1).last() == s0[i as int]);
            }
            let b = self.boosts[i];
            if !b.is_passed && !b.is_collected {
                out.push(b);
            }
            i = i + 1;
        }
        proof {
            assert(s0.subrange(0, n as int) =~= s0);
        }
        self.boosts = out;
    }

    /// Whether the round is lost this frame: only while playing, and only
    /// when the player has crossed the floor or a fatal fault stands.
    fn is_over(&self) -> (r: bool)
        ensures
            r == ((self.player.position_y > FLOOR_LEVEL || self.hit_enemy || self.hit_pipe)
                && self.play_state == PlayState::Play),
    {
        (self.player.position_y > FLOOR_LEVEL || self.hit_enemy || self.hit_pipe)
            && self.play_state.is_playing()
    }
}

// What one frame does, written out as functions of the state the frame
// starts from (after any pending restart) and the frame's input. The spawn
// draws are the one thing these functions cannot name: the contracts below
// bound them instead.

/// The multiplier once the boost clock has ticked: an expired boost hands
/// the speed back to normal.
pub open spec fn mult_after_tick(s: MainState, delta: u64) -> i64 {
    if s.has_boost && clamp_i64(s.boost_duration - delta) <= 0 {
        MULT_NORMAL
    } else {
        s.multiplier
    }
}

/// Whether a boost is still active once the boost clock has ticked.
pub open spec fn has_boost_after_tick(s: MainState, delta: u64) -> bool {
    s.has_boost && clamp_i64(s.boost_duration - delta) > 0
}

/// The boost clock once it has ticked; it only runs while a boost is active.
pub open spec fn duration_after_tick(s: MainState, delta: u64) -> int {
    if s.has_boost {
        clamp_i64(s.boost_duration - delta)
    } else {
        s.boost_duration as int
    }
}

/// A spawn countdown after the frame's elapsed time; countdowns only run
/// while playing.
pub open spec fn timer_after_tick(t: i64, playing: bool, delta: u64) -> int {
    if playing {
        clamp_i64(t - delta)
    } else {
        t as int
    }
}

/// Whether this frame spawns a pipe: playing, and the countdown has run out.
pub open spec fn pipe_spawn_due(s: MainState, input: FrameInput) -> bool {
    s.play_state == PlayState::Play && clamp_i64(s.time_until_next_pipe - input.delta_ns) <= 0
}

/// Whether this frame spawns an enemy.
pub open spec fn enemy_spawn_due(s: MainState, input: FrameInput) -> bool {
    s.play_state == PlayState::Play && clamp_i64(s.time_until_next_enemy - input.delta_ns) <= 0
}

/// Whether this frame spawns a boost: additionally suppressed while a boost
/// effect is active.
pub open spec fn boost_spawn_due(s: MainState, input: FrameInput) -> bool {
    s.play_state == PlayState::Play && clamp_i64(s.time_until_next_boost - input.delta_ns) <= 0
        && !has_boost_after_tick(s, input.delta_ns)
}

/// The player after this frame's input and motion, before the spare-life
/// reprieve.
pub open spec fn frame_player_moved(s: MainState, input: FrameInput) -> PlayerEntity {
    player_step(s.player, s.play_state, input.jump_pressed, input.jump_held)
}

/// Whether the spare-life reprieve fires: the player crossed the floor with
/// more than one life left.
pub open spec fn frame_reprieve(s: MainState, input: FrameInput) -> bool {
    frame_player_moved(s, input).position_y > FLOOR_LEVEL && s.lives > 1
}

/// The player at the end of the frame: snapped back to the midline if the
/// reprieve fired.
pub open spec fn frame_player(s: MainState, input: FrameInput) -> PlayerEntity {
    let p = frame_player_moved(s, input);
    if frame_reprieve(s, input) {
        PlayerEntity {
            position_y: MIDDLE,
            zone: Rect { y: (MIDDLE - FERRIS_HEIGHT / 2) as i64, ..p.zone },
            ..p
        }
    } else {
        p
    }
}

/// The player hitbox the collision passes run against.
pub open spec fn frame_zone(s: MainState, input: FrameInput) -> Rect {
    frame_player(s, input).zone
}

/// The lives left after the reprieve, before any collision.
pub open spec fn lives_after_reprieve(s: MainState, input: FrameInput) -> int {
    if frame_reprieve(s, input) {
        s.lives - 1
    } else {
        s.lives as int
    }
}

/// The play state the collision passes run under: an accepted jump has
/// already started the round.
pub open spec fn frame_ps_mid(s: MainState, input: FrameInput) -> PlayState {
    if s.play_state == PlayState::Play {
        PlayState::Play
    } else if player_jumps(s.player, input.jump_pressed, input.jump_held) {
        PlayState::Play
    } else {
        s.play_state
    }
}

/// How many pipes hit the player this frame.
pub open spec fn frame_pipe_hits(s: MainState, input: FrameInput) -> int {
    count_pipe_hits(frame_zone(s, input), s.pipes@, mult_after_tick(s, input.delta_ns))
}

/// How many pipes score this frame.
pub open spec fn frame_pipe_passes(s: MainState, input: FrameInput) -> int {
    count_pipe_passes(s.pipes@, mult_after_tick(s, input.delta_ns))
}

/// The lives left after the pipe pass.
pub open spec fn lives_after_pipes(s: MainState, input: FrameInput) -> int {
    clamp_i64(lives_after_reprieve(s, input) - frame_pipe_hits(s, input))
}

/// Whether the fatal pipe fault stands at the end of the frame.
pub open spec fn frame_fatal_pipe(s: MainState, input: FrameInput) -> bool {
    s.hit_pipe || (frame_pipe_hits(s, input) >= 1 && lives_after_reprieve(s, input)
        <= frame_pipe_hits(s, input))
}

/// How many enemies hit the player this frame.
pub open spec fn frame_enemy_hits(s: MainState, input: FrameInput) -> int {
    count_enemy_hits(frame_zone(s, input), s.enemies@, mult_after_tick(s, input.delta_ns))
}

/// The lives left after the enemy pass.
pub open spec fn lives_after_enemies(s: MainState, input: FrameInput) -> int {
    clamp_i64(lives_after_pipes(s, input) - frame_enemy_hits(s, input))
}

/// Whether the fatal enemy fault stands at the end of the frame.
pub open spec fn frame_fatal_enemy(s: MainState, input: FrameInput) -> bool {
    s.hit_enemy || (frame_enemy_hits(s, input) >= 1 && lives_after_pipes(s, input)
        <= frame_enemy_hits(s, input))
}

/// How many boosts the player collects this frame.
pub open spec fn frame_boost_grabs(s: MainState, input: FrameInput) -> int {
    count_boost_grabs(frame_zone(s, input), s.boosts@)
}

/// The lives at the end of the frame, bonus lives included.
pub open spec fn frame_lives(s: MainState, input: FrameInput) -> int {
    clamp_i64(lives_after_enemies(s, input) + count_bonus_grabs(frame_zone(s, input), s.boosts@))
}

/// The speed effect left standing at the end of the frame, if any boost
/// changed it.
pub open spec fn frame_speed_grab(s: MainState, input: FrameInput) -> Option<BoostType> {
    last_speed_grab(frame_zone(s, input), s.boosts@)
}

/// Whether the round is lost this frame.
pub open spec fn frame_died(s: MainState, input: FrameInput) -> bool {
    frame_ps_mid(s, input) == PlayState::Play && (frame_player(s, input).position_y > FLOOR_LEVEL
        || frame_fatal_pipe(s, input) || frame_fatal_enemy(s, input))
}

/// A freshly spawned pipe neither hits the player nor scores, so appending
/// it leaves both pipe counts alone.
proof fn lemma_pipe_counts_push(z: Rect, s: Seq<PipeEntity>, p: PipeEntity, m: i64)
    requires
        !pipe_hit(z, pipe_step(p, m)),
        !pipe_gone(pipe_step(p, m)),
    ensures
        count_pipe_hits(z, s.push(p), m) == count_pipe_hits(z, s, m),
        count_pipe_passes(s.push(p), m) == count_pipe_passes(s, m),
{
    assert(s.push(p).drop_last() =~= s);
    assert(s.push(p).last() == p);
}

/// Appending a pipe marks the queue pointwise: the old entries as before,
/// the new one with the lives the scan reaches it with.
proof fn lemma_marked_pipes_push(z: Rect, s: Seq<PipeEntity>, p: PipeEntity, m: i64, lives: int)
    ensures
        marked_pipes(z, s.push(p), m, lives) == marked_pipes(z, s, m, lives).push(
            marked_pipe(z, p, m, clamp_i64(lives - count_pipe_hits(z, s, m))),
        ),
{
    let a = marked_pipes(z, s.push(p), m, lives);
    let b = marked_pipes(z, s, m, lives).push(
        marked_pipe(z, p, m, clamp_i64(lives - count_pipe_hits(z, s, m))),
    );
    assert forall|i: int| 0 <= i < a.len() implies a[i] == b[i] by {
        assert(s.push(p).subrange(0, i) =~= if i <= s.len() {
            s.subrange(0, i)
        } else {
            s.push(p).subrange(0, i)
        });
        if i == s.len() {
            assert(s.push(p).subrange(0, i) =~= s);
            assert(s.push(p)[i] == p);
        }
    }
    assert(a =~= b);
}

/// Pruning keeps an appended live pipe at the back.
proof fn lemma_kept_pipes_push_live(s: Seq<PipeEntity>, p: PipeEntity)
    requires
        !p.is_passed,
    ensures
        kept_pipes(s.push(p)) == kept_pipes(s).push(p),
{
    assert(s.push(p).drop_last() =~= s);
    assert(s.push(p).last() == p);
}

/// A freshly spawned enemy neither hits the player nor leaves the screen.
proof fn lemma_enemy_counts_push(z: Rect, s: Seq<EnemyEntity>, e: EnemyEntity, m: i64)
    requires
        !enemy_hit(z, enemy_step(e, m)),
    ensures
        count_enemy_hits(z, s.push(e), m) == count_enemy_hits(z, s, m),
{
    assert(s.push(e).drop_last() =~= s);
    assert(s.push(e).last() == e);
}

/// Appending an enemy marks the queue pointwise.
proof fn lemma_marked_enemies_push(z: Rect, s: Seq<EnemyEntity>, e: EnemyEntity, m: i64, lives: int)
    ensures
        marked_enemies(z, s.push(e), m, lives) == marked_enemies(z, s, m, lives).push(
            marked_enemy(z, e, m, clamp_i64(lives - count_enemy_hits(z, s, m))),
        ),
{
    let a = marked_enemies(z, s.push(e), m, lives);
    let b = marked_enemies(z, s, m, lives).push(
        marked_enemy(z, e, m, clamp_i64(lives - count_enemy_hits(z, s, m))),
    );
    assert forall|i: int| 0 <= i < a.len() implies a[i] == b[i] by {
        assert(s.push(e).subrange(0, i) =~= if i <= s.len() {
            s.subrange(0, i)
        } else {
            s.push(e).subrange(0, i)
        });
        if i == s.len() {
            assert(s.push(e).subrange(0, i) =~= s);
            assert(s.push(e)[i] == e);
        }
    }
    assert(a =~= b);
}

/// Pruning keeps an appended live enemy at the back.
proof fn lemma_kept_enemies_push_live(s: Seq<EnemyEntity>, e: EnemyEntity)
    requires
        !e.is_passed,
    ensures
        kept_enemies(s.push(e)) == kept_enemies(s).push(e),
{
    assert(s.push(e).drop_last() =~= s);
    assert(s.push(e).last() == e);
}

/// A freshly spawned boost is neither collected nor off screen, so
/// appending it changes no boost count and no speed effect.
proof fn lemma_boost_counts_push(z: Rect, s: Seq<BoostEntity>, b: BoostEntity)
    requires
        !boost_grab(z, boost_step(b)),
    ensures
        count_boost_grabs(z, s.push(b)) == count_boost_grabs(z, s),
        count_bonus_grabs(z, s.push(b)) == count_bonus_grabs(z, s),
        last_speed_grab(z, s.push(b)) == last_speed_grab(z, s),
{
    assert(s.push(b).drop_last() =~= s);
    assert(s.push(b).last() == b);
}

/// Appending a boost marks the queue pointwise.
proof fn lemma_marked_boosts_push(z: Rect, s: Seq<BoostEntity>, b: BoostEntity)
    ensures
        marked_boosts(z, s.push(b)) == marked_boosts(z, s).push(marked_boost(z, b)),
{
    let a = marked_boosts(z, s.push(b));
    let c = marked_boosts(z, s).push(marked_boost(z, b));
    assert forall|i: int| 0 <= i < a.len() implies a[i] == c[i] by {
        if i == s.len() {
            assert(s.push(b)[i] == b);
        }
    }
    assert(a =~= c);
}

/// Pruning keeps an appended live boost at the back.
proof fn lemma_kept_boosts_push_live(s: Seq<BoostEntity>, b: BoostEntity)
    requires
        !b.is_passed,
        !b.is_collected,
    ensures
        kept_boosts(s.push(b)) == kept_boosts(s).push(b),
{
    assert(s.push(b).drop_last() =~= s);
    assert(s.push(b).last() == b);
}

/// On the game-over screen nothing is due, nothing collides, and the fresh
/// player stays well above the floor; a jump starts the next round at once.
proof fn lemma_dead_case(s1: MainState, input: FrameInput)
    requires
        s1.wf(),
        s1.round_fresh(),
        s1.play_state == PlayState::Dead,
    ensures
        !pipe_spawn_due(s1, input),
        !enemy_spawn_due(s1, input),
        !boost_spawn_due(s1, input),
        frame_player(s1, input) == player_step(
            initial_player(),
            PlayState::Dead,
            input.jump_pressed,
            input.jump_held,
        ),
        !frame_reprieve(s1, input),
        frame_lives(s1, input) == 1,
        frame_pipe_passes(s1, input) == 0,
        !frame_died(s1, input),
        !frame_fatal_pipe(s1, input),
        !frame_fatal_enemy(s1, input),
        frame_ps_mid(s1, input) == (if input.jump_pressed {
            PlayState::Play
        } else {
            PlayState::Dead
        }),
        frame_boost_grabs(s1, input) == 0,
        frame_speed_grab(s1, input) is None,
        kept_pipes(
            marked_pipes(
                frame_zone(s1, input),
                s1.pipes@,
                mult_after_tick(s1, input.delta_ns),
                lives_after_reprieve(s1, input),
            ),
        ).len() == 0,
        kept_enemies(
            marked_enemies(
                frame_zone(s1, input),
                s1.enemies@,
                mult_after_tick(s1, input.delta_ns),
                lives_after_pipes(s1, input),
            ),
        ).len() == 0,
        kept_boosts(marked_boosts(frame_zone(s1, input), s1.boosts@)).len() == 0,
{
    assert(frame_player_moved(s1, input).position_y <= FLOOR_LEVEL);
}

/// An idle start-screen frame with empty queues and the player in its
/// bounce band: nothing is due, nothing collides, the reprieve cannot fire.
proof fn lemma_idle_case(s1: MainState, input: FrameInput)
    requires
        s1.wf(),
        s1.play_state == PlayState::StartScreen,
        s1.pipes@.len() == 0,
        s1.enemies@.len() == 0,
        s1.boosts@.len() == 0,
        s1.player.position_y <= FLOOR_LEVEL,
        s1.player.physics.velocity <= JUMP,
    ensures
        !pipe_spawn_due(s1, input),
        !enemy_spawn_due(s1, input),
        !boost_spawn_due(s1, input),
        !frame_reprieve(s1, input),
        frame_lives(s1, input) == s1.lives,
        frame_pipe_passes(s1, input) == 0,
        kept_pipes(
            marked_pipes(
                frame_zone(s1, input),
                s1.pipes@,
                mult_after_tick(s1, input.delta_ns),
                lives_after_reprieve(s1, input),
            ),
        ).len() == 0,
        kept_enemies(
            marked_enemies(
                frame_zone(s1, input),
                s1.enemies@,
                mult_after_tick(s1, input.delta_ns),
                lives_after_pipes(s1, input),
            ),
        ).len() == 0,
        kept_boosts(marked_boosts(frame_zone(s1, input), s1.boosts@)).len() == 0,
{
    assert(frame_player_moved(s1, input).position_y <= FLOOR_LEVEL);
}

impl MainState {
    /// The spawn phase: while playing, each expired countdown appends its
    /// entity at the right edge — at a random height, with a random second
    /// roll for a boost's effect — and is redrawn from its fixed range. An
    /// active boost effect suppresses boost spawns. `s1` is the state the
    /// frame started from, before the countdowns ticked.
    fn spawn_entities(&mut self, input: FrameInput, Ghost(s1): Ghost<MainState>)
        requires
            old(self).play_state == s1.play_state,
            old(self).pipes@ == s1.pipes@,
            old(self).enemies@ == s1.enemies@,
            old(self).boosts@ == s1.boosts@,
            old(self).has_boost == has_boost_after_tick(s1, input.delta_ns),
            old(self).time_until_next_pipe as int == timer_after_tick(
                s1.time_until_next_pipe,
                s1.play_state == PlayState::Play,
                input.delta_ns,
            ),
            old(self).time_until_next_enemy as int == timer_after_tick(
                s1.time_until_next_enemy,
                s1.play_state == PlayState::Play,
                input.delta_ns,
            ),
            old(self).time_until_next_boost as int == timer_after_tick(
                s1.time_until_next_boost,
                s1.play_state == PlayState::Play,
                input.delta_ns,
            ),
        ensures
            pipe_spawn_due(s1, input) ==> final(self).pipes@ == old(self).pipes@.push(
                final(self).pipes@.last(),
            ) && final(self).pipes@.last() == pipe_spawn(final(self).pipes@.last().gap_top)
                && PIPE_Y_MIN <= final(self).pipes@.last().gap_top < PIPE_Y_MAX && PIPE_DELAY_MIN_NS
                <= final(self).time_until_next_pipe < PIPE_DELAY_MAX_NS,
            !pipe_spawn_due(s1, input) ==> final(self).pipes@ == old(self).pipes@
                && final(self).time_until_next_pipe == old(self).time_until_next_pipe,
            enemy_spawn_due(s1, input) ==> final(self).enemies@ == old(self).enemies@.push(
                final(self).enemies@.last(),
            ) && final(self).enemies@.last() == enemy_spawn(final(self).enemies@.last().y)
                && ENEMY_Y_MIN <= final(self).enemies@.last().y < ENEMY_Y_MAX && ENEMY_DELAY_MIN_NS
                <= final(self).time_until_next_enemy < ENEMY_DELAY_MAX_NS,
            !enemy_spawn_due(s1, input) ==> final(self).enemies@ == old(self).enemies@
                && final(self).time_until_next_enemy == old(self).time_until_next_enemy,
            boost_spawn_due(s1, input) ==> final(self).boosts@ == old(self).boosts@.push(
                final(self).boosts@.last(),
            ) && final(self).boosts@.last().wf() && !final(self).boosts@.last().is_passed
                && !final(self).boosts@.last().is_collected && final(self).boosts@.last().x == SCREEN_WIDTH
                + BOOST_WIDTH / 2 && BOOST_Y_MIN <= final(self).boosts@.last().y < BOOST_Y_MAX && (
            exists|r: i64|
                0 <= r < BOOST_ROLL_MAX && final(self).boosts@.last() == #[trigger] boost_spawn(
                    final(self).boosts@.last().y,
                    r,
                )) && BOOST_DELAY_MIN_NS <= final(self).time_until_next_boost < BOOST_DELAY_MAX_NS,
            !boost_spawn_due(s1, input) ==> final(self).boosts@ == old(self).boosts@
                && final(self).time_until_next_boost == old(self).time_until_next_boost,
            final(self).player == old(self).player,
            final(self).play_state == old(self).play_state,
            final(self).lives == old(self).lives,
            final(self).score == old(self).score,
            final(self).best_score == old(self).best_score,
            final(self).hit_pipe == old(self).hit_pipe,
            final(self).hit_enemy == old(self).hit_enemy,
            final(self).has_boost == old(self).has_boost,
            final(self).boost_duration == old(self).boost_duration,
            final(self).multiplier == old(self).multiplier,
    {
        if self.play_state.is_playing() && self.time_until_next_pipe <= 0 {
            let y = rand_in_range(&mut self.rng, PIPE_Y_MIN, PIPE_Y_MAX);
            let pipe = PipeEntity::new(y);
            self.pipes.push(pipe);
            self.time_until_next_pipe = rand_in_range(
                &mut self.rng,
                PIPE_DELAY_MIN_NS,
                PIPE_DELAY_MAX_NS,
            );
        }
        if self.play_state.is_playing() && self.time_until_next_enemy <= 0 {
            let y = rand_in_range(&mut self.rng, ENEMY_Y_MIN, ENEMY_Y_MAX);
            let enemy = EnemyEntity::new(y);
            self.enemies.push(enemy);
            self.time_until_next_enemy = rand_in_range(
                &mut self.rng,
                ENEMY_DELAY_MIN_NS,
                ENEMY_DELAY_MAX_NS,
            );
        }
        if self.play_state.is_playing() && self.time_until_next_boost <= 0 && !self.has_boost {
            let y = rand_in_range(&mut self.rng, BOOST_Y_MIN, BOOST_Y_MAX);
            let roll = rand_in_range(&mut self.rng, 0, BOOST_ROLL_MAX);
            let boost = BoostEntity::new(y, roll);
            self.boosts.push(boost);
            self.time_until_next_boost = rand_in_range(
                &mut self.rng,
                BOOST_DELAY_MIN_NS,
                BOOST_DELAY_MAX_NS,
            );
            proof {
                assert(self.boosts@.last() == boost_spawn(y, roll));
                assert(exists|r: i64|
                    0 <= r < BOOST_ROLL_MAX && self.boosts@.last() == #[trigger] boost_spawn(
                        self.boosts@.last().y,
                        r,
                    ));
            }
        }
    }

    /// The three collision passes of a frame, in order: pipes, enemies,
    /// boosts. `s1` is the state the frame started from; the player has
    /// already moved and the spawns of the frame sit at the back of the
    /// queues.
    #[verifier::rlimit(100)]
    fn collide_all(&mut self, input: FrameInput, Ghost(s1): Ghost<MainState>) -> (collected: usize)
        requires
            s1.wf(),
            old(self).player == frame_player(s1, input),
            old(self).lives as int == lives_after_reprieve(s1, input),
            old(self).score == s1.score,
            old(self).hit_pipe == s1.hit_pipe,
            old(self).hit_enemy == s1.hit_enemy,
            old(self).multiplier == mult_after_tick(s1, input.delta_ns),
            old(self).has_boost == has_boost_after_tick(s1, input.delta_ns),
            old(self).boost_duration as int == duration_after_tick(s1, input.delta_ns),
            pipe_spawn_due(s1, input) ==> old(self).pipes@ == s1.pipes@.push(
                old(self).pipes@.last(),
            ) && old(self).pipes@.last() == pipe_spawn(old(self).pipes@.last().gap_top)
                && PIPE_Y_MIN <= old(self).pipes@.last().gap_top < PIPE_Y_MAX,
            !pipe_spawn_due(s1, input) ==> old(self).pipes@ == s1.pipes@,
            enemy_spawn_due(s1, input) ==> old(self).enemies@ == s1.enemies@.push(
                old(self).enemies@.last(),
            ) && old(self).enemies@.last() == enemy_spawn(old(self).enemies@.last().y)
                && ENEMY_Y_MIN <= old(self).enemies@.last().y < ENEMY_Y_MAX,
            !enemy_spawn_due(s1, input) ==> old(self).enemies@ == s1.enemies@,
            boost_spawn_due(s1, input) ==> old(self).boosts@ == s1.boosts@.push(
                old(self).boosts@.last(),
            ) && old(self).boosts@.last().wf() && !old(self).boosts@.last().is_passed
                && !old(self).boosts@.last().is_collected && old(self).boosts@.last().x
                == SCREEN_WIDTH + BOOST_WIDTH / 2,
            !boost_spawn_due(s1, input) ==> old(self).boosts@ == s1.boosts@,
        ensures
            final(self).lives as int == frame_lives(s1, input),
            final(self).score as int == clamp_i64(s1.score + frame_pipe_passes(s1, input)),
            final(self).hit_pipe == frame_fatal_pipe(s1, input),
            final(self).hit_enemy == frame_fatal_enemy(s1, input),
            collected as int == frame_boost_grabs(s1, input),
            !pipe_spawn_due(s1, input) ==> final(self).pipes@ == marked_pipes(
                frame_zone(s1, input),
                s1.pipes@,
                mult_after_tick(s1, input.delta_ns),
                lives_after_reprieve(s1, input),
            ),
            pipe_spawn_due(s1, input) ==> final(self).pipes@ == marked_pipes(
                frame_zone(s1, input),
                s1.pipes@,
                mult_after_tick(s1, input.delta_ns),
                lives_after_reprieve(s1, input),
            ).push(pipe_step(old(self).pipes@.last(), mult_after_tick(s1, input.delta_ns))),
            !enemy_spawn_due(s1, input) ==> final(self).enemies@ == marked_enemies(
                frame_zone(s1, input),
                s1.enemies@,
                mult_after_tick(s1, input.delta_ns),
                lives_after_pipes(s1, input),
            ),
            enemy_spawn_due(s1, input) ==> final(self).enemies@ == marked_enemies(
                frame_zone(s1, input),
                s1.enemies@,
                mult_after_tick(s1, input.delta_ns),
                lives_after_pipes(s1, input),
            ).push(enemy_step(old(self).enemies@.last(), mult_after_tick(s1, input.delta_ns))),
            !boost_spawn_due(s1, input) ==> final(self).boosts@ == marked_boosts(
                frame_zone(s1, input),
                s1.boosts@,
            ),
            boost_spawn_due(s1, input) ==> final(self).boosts@ == marked_boosts(
                frame_zone(s1, input),
                s1.boosts@,
            ).push(boost_step(old(self).boosts@.last())),
            frame_speed_grab(s1, input) == Some(BoostType::SpeedUp) ==> final(self).has_boost
                && final(self).boost_duration == BOOST_DURATION_NS && final(self).multiplier
                == MULT_FAST,
            frame_speed_grab(s1, input) == Some(BoostType::SlowDown) ==> final(self).has_boost
                && final(self).boost_duration == BOOST_DURATION_NS && final(self).multiplier
                == MULT_SLOW,
            frame_speed_grab(s1, input) is None ==> final(self).has_boost == has_boost_after_tick(
                s1,
                input.delta_ns,
            ) && final(self).boost_duration as int == duration_after_tick(s1, input.delta_ns)
                && final(self).multiplier == mult_after_tick(s1, input.delta_ns),
            final(self).player == old(self).player,
            final(self).play_state == old(self).play_state,
            final(self).best_score == old(self).best_score,
            final(self).time_until_next_pipe == old(self).time_until_next_pipe,
            final(self).time_until_next_enemy == old(self).time_until_next_enemy,
            final(self).time_until_next_boost == old(self).time_until_next_boost,
    {
        let ghost sp_pipe = self.pipes@.last();
        let ghost sp_enemy = self.enemies@.last();
        let ghost sp_boost = self.boosts@.last();
        let ghost zf = frame_zone(s1, input);
        let ghost mt = mult_after_tick(s1, input.delta_ns);
        let ghost lr = lives_after_reprieve(s1, input);
        let ghost base_pipes = marked_pipes(zf, s1.pipes@, mt, lr);
        let ghost spm = pipe_step(sp_pipe, mt);
        proof {
            assert(self.multiplier == mt);
            assert(MULT_SLOW <= mt <= MULT_FAST);
            assert(zf.x == 896 && zf.w == 256);
            if pipe_spawn_due(s1, input) {
                assert(spm.top_zone.x >= 4069 && spm.bottom_zone.x >= 4069 && spm.x >= 4325);
                assert(!pipe_hit(zf, spm));
                assert(!pipe_gone(spm));
                lemma_pipe_counts_push(zf, s1.pipes@, sp_pipe, mt);
                lemma_marked_pipes_push(zf, s1.pipes@, sp_pipe, mt, lr);
                assert(marked_pipe(
                    zf,
                    sp_pipe,
                    mt,
                    clamp_i64(lr - count_pipe_hits(zf, s1.pipes@, mt)),
                ) == spm);
            }
            assert(forall|i: int|
                0 <= i < self.pipes@.len() ==> (#[trigger] self.pipes@[i]).wf() && self.pipes@[i].x
                    >= -PIPE_WIDTH);
        }
        self.collide_pipes();
        proof {
            assert(self.lives as int == lives_after_pipes(s1, input));
            assert(self.score as int == clamp_i64(s1.score + frame_pipe_passes(s1, input)));
            assert(self.hit_pipe == frame_fatal_pipe(s1, input));
            assert(!pipe_spawn_due(s1, input) ==> self.pipes@ == base_pipes);
            assert(pipe_spawn_due(s1, input) ==> self.pipes@ == base_pipes.push(spm));
        }

        let ghost lp = lives_after_pipes(s1, input);
        let ghost base_enemies = marked_enemies(zf, s1.enemies@, mt, lp);
        let ghost spe = enemy_step(sp_enemy, mt);
        proof {
            if enemy_spawn_due(s1, input) {
                assert(spe.zone.x >= 4063 && spe.x >= 4319);
                assert(!enemy_hit(zf, spe));
                lemma_enemy_counts_push(zf, s1.enemies@, sp_enemy, mt);
                lemma_marked_enemies_push(zf, s1.enemies@, sp_enemy, mt, lp);
                assert(marked_enemy(
                    zf,
                    sp_enemy,
                    mt,
                    clamp_i64(lp - count_enemy_hits(zf, s1.enemies@, mt)),
                ) == spe);
            }
            assert(forall|i: int|
                0 <= i < self.enemies@.len() ==> (#[trigger] self.enemies@[i]).wf()
                    && self.enemies@[i].x >= -ENEMY_WIDTH);
        }
        self.collide_enemies();
        proof {
            assert(self.lives as int == lives_after_enemies(s1, input));
            assert(self.hit_enemy == frame_fatal_enemy(s1, input));
            assert(!enemy_spawn_due(s1, input) ==> self.enemies@ == base_enemies);
            assert(enemy_spawn_due(s1, input) ==> self.enemies@ == base_enemies.push(spe));
        }

        let ghost base_boosts = marked_boosts(zf, s1.boosts@);
        let ghost spb = boost_step(sp_boost);
        proof {
            if boost_spawn_due(s1, input) {
                assert(spb.zone.x == 4068 && spb.x == 4196);
                assert(!boost_grab(zf, spb));
                assert(!boost_gone(spb));
                lemma_boost_counts_push(zf, s1.boosts@, sp_boost);
                lemma_marked_boosts_push(zf, s1.boosts@, sp_boost);
                assert(marked_boost(zf, sp_boost) == spb);
            }
            assert(forall|i: int|
                0 <= i < self.boosts@.len() ==> (#[trigger] self.boosts@[i]).wf()
                    && self.boosts@[i].x >= -BOOST_WIDTH);
        }
        let collected = self.collide_boosts();
        proof {
            assert(collected as int == frame_boost_grabs(s1, input));
            assert(self.lives as int == frame_lives(s1, input));
            assert(!boost_spawn_due(s1, input) ==> self.boosts@ == base_boosts);
            assert(boost_spawn_due(s1, input) ==> self.boosts@ == base_boosts.push(spb));
        }
        collected
    }

    /// The three prune passes of a frame, and with them the session
    /// invariant: every entity that stays is live.
    #[verifier::rlimit(100)]
    fn prune_all(&mut self)
        requires
            old(self).player.wf(),
            MULT_SLOW <= old(self).multiplier <= MULT_FAST,
            !old(self).has_boost ==> old(self).multiplier == MULT_NORMAL,
            old(self).has_boost ==> old(self).boost_duration > 0,
            forall|i: int|
                0 <= i < old(self).pipes@.len() ==> (#[trigger] old(self).pipes@[i]).wf() && (!old(
                    self,
                ).pipes@[i].is_passed ==> old(self).pipes@[i].x > -(PIPE_WIDTH / 2)),
            forall|i: int|
                0 <= i < old(self).enemies@.len() ==> (#[trigger] old(self).enemies@[i]).wf() && (
                !old(self).enemies@[i].is_passed ==> old(self).enemies@[i].x > -(ENEMY_WIDTH / 2)),
            forall|i: int|
                0 <= i < old(self).boosts@.len() ==> (#[trigger] old(self).boosts@[i]).wf() && (
                !old(self).boosts@[i].is_passed && !old(self).boosts@[i].is_collected ==> old(
                    self,
                ).boosts@[i].x > -(BOOST_WIDTH / 2)),
        ensures
            final(self).wf(),
            final(self).pipes@ == kept_pipes(old(self).pipes@),
            final(self).enemies@ == kept_enemies(old(self).enemies@),
            final(self).boosts@ == kept_boosts(old(self).boosts@),
            final(self).player == old(self).player,
            final(self).play_state == old(self).play_state,
            final(self).lives == old(self).lives,
            final(self).score == old(self).score,
            final(self).best_score == old(self).best_score,
            final(self).hit_pipe == old(self).hit_pipe,
            final(self).hit_enemy == old(self).hit_enemy,
            final(self).has_boost == old(self).has_boost,
            final(self).boost_duration == old(self).boost_duration,
            final(self).multiplier == old(self).multiplier,
            final(self).time_until_next_pipe == old(self).time_until_next_pipe,
            final(self).time_until_next_enemy == old(self).time_until_next_enemy,
            final(self).time_until_next_boost == old(self).time_until_next_boost,
    {
        self.prune_pipes();
        self.prune_enemies();
        self.prune_boosts();
        proof {
            let qp = |p: PipeEntity| p.wf() && (!p.is_passed ==> p.x > -(PIPE_WIDTH / 2));
            assert(forall|i: int|
                0 <= i < old(self).pipes@.len() ==> qp(#[trigger] old(self).pipes@[i]));
            lemma_kept_pipes_all(old(self).pipes@, qp);
            let qe = |e: EnemyEntity| e.wf() && (!e.is_passed ==> e.x > -(ENEMY_WIDTH / 2));
            assert(forall|i: int|
                0 <= i < old(self).enemies@.len() ==> qe(#[trigger] old(self).enemies@[i]));
            lemma_kept_enemies_all(old(self).enemies@, qe);
            let qb = |b: BoostEntity| b.wf() && (!b.is_passed && !b.is_collected ==> b.x > -(
            BOOST_WIDTH / 2));
            assert(forall|i: int|
                0 <= i < old(self).boosts@.len() ==> qb(#[trigger] old(self).boosts@[i]));
            lemma_kept_boosts_all(old(self).boosts@, qb);
            assert(forall|i: int|
                0 <= i < self.pipes@.len() ==> pipe_live(#[trigger] self.pipes@[i]));
            assert(forall|i: int|
                0 <= i < self.enemies@.len() ==> enemy_live(#[trigger] self.enemies@[i]));
            assert(forall|i: int|
                0 <= i < self.boosts@.len() ==> boost_live(#[trigger] self.boosts@[i]));
            assert(self.wf());
        }
    }

    /// The rest of a frame once spawning is done: player motion and the
    /// reprieve, the round start on an accepted jump, the three collision
    /// passes, the loss condition, and the three prunes. `s1` is the state
    /// the frame started from; the preconditions say exactly how the
    /// current state was reached from it.
    #[verifier::rlimit(100)]
    fn resolve_frame(&mut self, input: FrameInput, Ghost(s1): Ghost<MainState>) -> (out:
        FrameOutput)
        requires
            s1.wf(),
            old(self).play_state == s1.play_state,
            old(self).player == s1.player,
            old(self).lives == s1.lives,
            old(self).score == s1.score,
            old(self).best_score == s1.best_score,
            old(self).hit_pipe == s1.hit_pipe,
            old(self).hit_enemy == s1.hit_enemy,
            old(self).multiplier == mult_after_tick(s1, input.delta_ns),
            old(self).has_boost == has_boost_after_tick(s1, input.delta_ns),
            old(self).boost_duration as int == duration_after_tick(s1, input.delta_ns),
            pipe_spawn_due(s1, input) ==> old(self).pipes@ == s1.pipes@.push(
                old(self).pipes@.last(),
            ) && old(self).pipes@.last() == pipe_spawn(old(self).pipes@.last().gap_top)
                && PIPE_Y_MIN <= old(self).pipes@.last().gap_top < PIPE_Y_MAX,
            !pipe_spawn_due(s1, input) ==> old(self).pipes@ == s1.pipes@,
            enemy_spawn_due(s1, input) ==> old(self).enemies@ == s1.enemies@.push(
                old(self).enemies@.last(),
            ) && old(self).enemies@.last() == enemy_spawn(old(self).enemies@.last().y)
                && ENEMY_Y_MIN <= old(self).enemies@.last().y < ENEMY_Y_MAX,
            !enemy_spawn_due(s1, input) ==> old(self).enemies@ == s1.enemies@,
            boost_spawn_due(s1, input) ==> old(self).boosts@ == s1.boosts@.push(
                old(self).boosts@.last(),
            ) && old(self).boosts@.last().wf() && !old(self).boosts@.last().is_passed
                && !old(self).boosts@.last().is_collected && old(self).boosts@.last().x == SCREEN_WIDTH
                + BOOST_WIDTH / 2 && BOOST_Y_MIN <= old(self).boosts@.last().y < BOOST_Y_MAX && (
            exists|r: i64|
                0 <= r < BOOST_ROLL_MAX && old(self).boosts@.last() == #[trigger] boost_spawn(
                    old(self).boosts@.last().y,
                    r,
                )),
            !boost_spawn_due(s1, input) ==> old(self).boosts@ == s1.boosts@,
        ensures
            final(self).wf(),
            final(self).player == frame_player(s1, input),
            final(self).play_state == (if frame_died(s1, input) {
                PlayState::Dead
            } else {
                frame_ps_mid(s1, input)
            }),
            out.died == frame_died(s1, input),
            out.boosts_collected as int == frame_boost_grabs(s1, input),
            final(self).lives as int == frame_lives(s1, input),
            final(self).score as int == clamp_i64(s1.score + frame_pipe_passes(s1, input)),
            final(self).best_score == s1.best_score,
            final(self).hit_pipe == frame_fatal_pipe(s1, input),
            final(self).hit_enemy == frame_fatal_enemy(s1, input),
            !pipe_spawn_due(s1, input) ==> final(self).pipes@ == kept_pipes(
                marked_pipes(
                    frame_zone(s1, input),
                    s1.pipes@,
                    mult_after_tick(s1, input.delta_ns),
                    lives_after_reprieve(s1, input),
                ),
            ),
            pipe_spawn_due(s1, input) ==> final(self).pipes@.len() >= 1
                && final(self).pipes@.drop_last() == kept_pipes(
                marked_pipes(
                    frame_zone(s1, input),
                    s1.pipes@,
                    mult_after_tick(s1, input.delta_ns),
                    lives_after_reprieve(s1, input),
                ),
            ) && final(self).pipes@.last() == pipe_step(
                pipe_spawn(final(self).pipes@.last().gap_top),
                mult_after_tick(s1, input.delta_ns),
            ) && PIPE_Y_MIN <= final(self).pipes@.last().gap_top < PIPE_Y_MAX,
            !enemy_spawn_due(s1, input) ==> final(self).enemies@ == kept_enemies(
                marked_enemies(
                    frame_zone(s1, input),
                    s1.enemies@,
                    mult_after_tick(s1, input.delta_ns),
                    lives_after_pipes(s1, input),
                ),
            ),
            enemy_spawn_due(s1, input) ==> final(self).enemies@.len() >= 1
                && final(self).enemies@.drop_last() == kept_enemies(
                marked_enemies(
                    frame_zone(s1, input),
                    s1.enemies@,
                    mult_after_tick(s1, input.delta_ns),
                    lives_after_pipes(s1, input),
                ),
            ) && final(self).enemies@.last() == enemy_step(
                enemy_spawn(final(self).enemies@.last().y),
                mult_after_tick(s1, input.delta_ns),
            ) && ENEMY_Y_MIN <= final(self).enemies@.last().y < ENEMY_Y_MAX,
            !boost_spawn_due(s1, input) ==> final(self).boosts@ == kept_boosts(
                marked_boosts(frame_zone(s1, input), s1.boosts@),
            ),
            boost_spawn_due(s1, input) ==> final(self).boosts@.len() >= 1
                && final(self).boosts@.drop_last() == kept_boosts(marked_boosts(frame_zone(s1, input), s1.boosts@))
                && BOOST_Y_MIN <= final(self).boosts@.last().y < BOOST_Y_MAX && (exists|r: i64|
                0 <= r < BOOST_ROLL_MAX && final(self).boosts@.last() == boost_step(
                    #[trigger] boost_spawn(final(self).boosts@.last().y, r),
                )),
            frame_speed_grab(s1, input) == Some(BoostType::SpeedUp) ==> final(self).has_boost
                && final(self).boost_duration == BOOST_DURATION_NS && final(self).multiplier
                == MULT_FAST,
            frame_speed_grab(s1, input) == Some(BoostType::SlowDown) ==> final(self).has_boost
                && final(self).boost_duration == BOOST_DURATION_NS && final(self).multiplier
                == MULT_SLOW,
            frame_speed_grab(s1, input) is None ==> final(self).has_boost == has_boost_after_tick(
                s1,
                input.delta_ns,
            ) && final(self).boost_duration as int == duration_after_tick(s1, input.delta_ns)
                && final(self).multiplier == mult_after_tick(s1, input.delta_ns),
            final(self).time_until_next_pipe == old(self).time_until_next_pipe,
            final(self).time_until_next_enemy == old(self).time_until_next_enemy,
            final(self).time_until_next_boost == old(self).time_until_next_boost,
    {
        let ghost sp_pipe = self.pipes@.last();
        let ghost sp_enemy = self.enemies@.last();
        let ghost sp_boost = self.boosts@.last();
        let ghost zf = frame_zone(s1, input);
        let ghost mt = mult_after_tick(s1, input.delta_ns);
        let ghost lr = lives_after_reprieve(s1, input);
        let ghost base_pipes = marked_pipes(zf, s1.pipes@, mt, lr);
        let ghost base_enemies = marked_enemies(zf, s1.enemies@, mt, lives_after_pipes(s1, input));
        let ghost base_boosts = marked_boosts(zf, s1.boosts@);
        let ghost spm = pipe_step(sp_pipe, mt);
        let ghost spe = enemy_step(sp_enemy, mt);
        let ghost spb = boost_step(sp_boost);

        let ps_now = self.play_state;
        let st = self.player.update(&ps_now, input.jump_pressed, input.jump_held);
        if self.player.hits_ground() && self.lives > 1 {
            self.player.prevent_hitting_ground();
            self.lives = self.lives - 1;
        }
        proof {
            assert(self.player == frame_player(s1, input));
            assert(self.lives as int == lives_after_reprieve(s1, input));
            assert(self.player.wf());
        }
        if !self.play_state.is_playing() && st.is_playing() {
            self.play_state = PlayState::Play;
        }
        proof {
            assert(self.play_state == frame_ps_mid(s1, input));
        }

        let collected = self.collide_all(input, Ghost(s1));

        let over = self.is_over();
        if over {
            self.play_state.set_dead();
        }
        proof {
            assert(over == frame_died(s1, input));
        }

        proof {
            assert(MULT_SLOW <= mt <= MULT_FAST);
            if pipe_spawn_due(s1, input) {
                assert(self.pipes@ == base_pipes.push(spm));
                assert(spm.wf() && !spm.is_passed && spm.x >= 4325);
            }
            assert forall|i: int|
                0 <= i < self.pipes@.len() implies (#[trigger] self.pipes@[i]).wf() && (
            !self.pipes@[i].is_passed ==> self.pipes@[i].x > -(PIPE_WIDTH / 2)) by {
                if i < base_pipes.len() {
                    assert(self.pipes@[i] == base_pipes[i]);
                    assert(pipe_live(s1.pipes@[i]));
                }
            }
            if enemy_spawn_due(s1, input) {
                assert(self.enemies@ == base_enemies.push(spe));
                assert(spe.wf() && !spe.is_passed && spe.x >= 4319);
            }
            assert forall|i: int|
                0 <= i < self.enemies@.len() implies (#[trigger] self.enemies@[i]).wf() && (
            !self.enemies@[i].is_passed ==> self.enemies@[i].x > -(ENEMY_WIDTH / 2)) by {
                if i < base_enemies.len() {
                    assert(self.enemies@[i] == base_enemies[i]);
                    assert(enemy_live(s1.enemies@[i]));
                }
            }
            if boost_spawn_due(s1, input) {
                assert(self.boosts@ == base_boosts.push(spb));
                assert(spb.wf() && !spb.is_passed && !spb.is_collected && spb.x == 4196);
            }
            assert forall|i: int|
                0 <= i < self.boosts@.len() implies (#[trigger] self.boosts@[i]).wf() && (
            !self.boosts@[i].is_passed && !self.boosts@[i].is_collected ==> self.boosts@[i].x > -(
            BOOST_WIDTH / 2)) by {
                if i < base_boosts.len() {
                    assert(self.boosts@[i] == base_boosts[i]);
                    assert(boost_live(s1.boosts@[i]));
                }
            }
            lemma_boost_count_bounds(zf, s1.boosts@);
            let lsg = frame_speed_grab(s1, input);
            if lsg is Some {
                assert(lsg == Some(BoostType::SpeedUp) || lsg == Some(BoostType::SlowDown));
            }
        }
        self.prune_all();
        proof {
            if pipe_spawn_due(s1, input) {
                lemma_kept_pipes_push_live(base_pipes, spm);
                assert(self.pipes@ == kept_pipes(base_pipes).push(spm));
                assert(self.pipes@.drop_last() =~= kept_pipes(base_pipes));
                assert(self.pipes@.last() == spm);
                assert(spm.gap_top == sp_pipe.gap_top);
            }
            if enemy_spawn_due(s1, input) {
                lemma_kept_enemies_push_live(base_enemies, spe);
                assert(self.enemies@ == kept_enemies(base_enemies).push(spe));
                assert(self.enemies@.drop_last() =~= kept_enemies(base_enemies));
                assert(spe.y == sp_enemy.y);
            }
            if boost_spawn_due(s1, input) {
                lemma_kept_boosts_push_live(base_boosts, spb);
                assert(self.boosts@ == kept_boosts(base_boosts).push(spb));
                assert(self.boosts@.drop_last() =~= kept_boosts(base_boosts));
                assert(spb.y == sp_boost.y);
            }
        }
        FrameOutput { boosts_collected: collected, died: over }
    }
}

impl MainState {
    /// One frame of the game, in the fixed order: a pending game-over
    /// performs the round reset; timers tick; due spawns append entities;
    /// the player moves on its input; a spare life absorbs a floor hit;
    /// an accepted jump starts the round; pipes, enemies and boosts move
    /// and collide in that order; the loss condition is evaluated; passed
    /// and collected entities are pruned.
    ///
    /// The spawn draws are random, so the contract pins every field of the
    /// new state exactly except the drawn values themselves, which it
    /// bounds: a spawned entity sits at the right edge within its vertical
    /// range, and a redrawn countdown lies in its fixed range.
    #[verifier::rlimit(100)]
    pub fn update(&mut self, input: FrameInput) -> (out: FrameOutput)
        requires
            old(self).wf(),
        ensures
            final(self).wf(),
            final(self).best_score >= old(self).best_score,
            old(self).play_state != PlayState::Dead ==> final(self).score >= old(self).score,
            // A start-screen frame is idle: no countdown moves, nothing
            // spawns, score and lives stand still.
            old(self).play_state == PlayState::StartScreen && old(self).pipes@.len() == 0
                && old(self).enemies@.len() == 0 && old(self).boosts@.len() == 0
                && old(self).player.position_y <= FLOOR_LEVEL
                && old(self).player.physics.velocity <= JUMP
                ==> final(self).time_until_next_pipe == old(self).time_until_next_pipe
                && final(self).time_until_next_enemy == old(self).time_until_next_enemy
                && final(self).time_until_next_boost == old(self).time_until_next_boost
                && final(self).pipes@.len() == 0 && final(self).enemies@.len() == 0
                && final(self).boosts@.len() == 0 && final(self).score == old(self).score
                && final(self).lives == old(self).lives,
            // A frame that starts on the game-over screen resets the round
            // (folding the score into the best score) and then runs on the
            // fresh state: nothing spawns, nothing collides, and a jump
            // starts the next round at once.
            old(self).play_state == PlayState::Dead ==> final(self).best_score == (
            if old(self).score > old(self).best_score {
                old(self).score
            } else {
                old(self).best_score
            }) && final(self).score == 0 && final(self).lives == 1 && final(self).pipes@.len() == 0
                && final(self).enemies@.len() == 0 && final(self).boosts@.len() == 0
                && final(self).time_until_next_pipe == PIPE_SPAWN_FIRST_NS
                && final(self).time_until_next_enemy == ENEMY_SPAWN_FIRST_NS
                && final(self).time_until_next_boost == BOOST_SPAWN_FIRST_NS
                && final(self).multiplier == MULT_NORMAL && !final(self).has_boost
                && final(self).boost_duration == 0 && !final(self).hit_pipe
                && !final(self).hit_enemy && final(self).player == player_step(
                initial_player(),
                PlayState::Dead,
                input.jump_pressed,
                input.jump_held,
            ) && final(self).play_state == (if input.jump_pressed {
                PlayState::Play
            } else {
                PlayState::Dead
            }) && !out.died && out.boosts_collected == 0,
            // Otherwise the frame is an exact function of the old state and
            // the input, spawn draws aside.
            old(self).play_state != PlayState::Dead ==> final(self).player == frame_player(
                *old(self),
                input,
            ) && final(self).play_state == (if frame_died(*old(self), input) {
                PlayState::Dead
            } else {
                frame_ps_mid(*old(self), input)
            }) && out.died == frame_died(*old(self), input) && out.boosts_collected as int
                == frame_boost_grabs(*old(self), input) && final(self).lives as int == frame_lives(
                *old(self),
                input,
            ) && final(self).score as int == clamp_i64(
                old(self).score + frame_pipe_passes(*old(self), input),
            ) && final(self).best_score == old(self).best_score && final(self).hit_pipe
                == frame_fatal_pipe(*old(self), input) && final(self).hit_enemy
                == frame_fatal_enemy(*old(self), input),
            // The pipe queue: the survivors of the mark-then-filter pass, in
            // order, plus the spawned pipe if one was due.
            old(self).play_state != PlayState::Dead && !pipe_spawn_due(*old(self), input)
                ==> final(self).pipes@ == kept_pipes(
                marked_pipes(
                    frame_zone(*old(self), input),
                    old(self).pipes@,
                    mult_after_tick(*old(self), input.delta_ns),
                    lives_after_reprieve(*old(self), input),
                ),
            ),
            old(self).play_state != PlayState::Dead && pipe_spawn_due(*old(self), input)
                ==> final(self).pipes@.len() >= 1 && final(self).pipes@.drop_last() == kept_pipes(
                marked_pipes(
                    frame_zone(*old(self), input),
                    old(self).pipes@,
                    mult_after_tick(*old(self), input.delta_ns),
                    lives_after_reprieve(*old(self), input),
                ),
            ) && final(self).pipes@.last() == pipe_step(
                pipe_spawn(final(self).pipes@.last().gap_top),
                mult_after_tick(*old(self), input.delta_ns),
            ) && PIPE_Y_MIN <= final(self).pipes@.last().gap_top < PIPE_Y_MAX,
            // The enemy queue, likewise.
            old(self).play_state != PlayState::Dead && !enemy_spawn_due(*old(self), input)
                ==> final(self).enemies@ == kept_enemies(
                marked_enemies(
                    frame_zone(*old(self), input),
                    old(self).enemies@,
                    mult_after_tick(*old(self), input.delta_ns),
                    lives_after_pipes(*old(self), input),
                ),
            ),
            old(self).play_state != PlayState::Dead && enemy_spawn_due(*old(self), input)
                ==> final(self).enemies@.len() >= 1 && final(self).enemies@.drop_last()
                == kept_enemies(
                marked_enemies(
                    frame_zone(*old(self), input),
                    old(self).enemies@,
                    mult_after_tick(*old(self), input.delta_ns),
                    lives_after_pipes(*old(self), input),
                ),
            ) && final(self).enemies@.last() == enemy_step(
                enemy_spawn(final(self).enemies@.last().y),
                mult_after_tick(*old(self), input.delta_ns),
            ) && ENEMY_Y_MIN <= final(self).enemies@.last().y < ENEMY_Y_MAX,
            // The boost queue, likewise; the spawned boost's effect came
            // from a roll in its fixed range.
            old(self).play_state != PlayState::Dead && !boost_spawn_due(*old(self), input)
                ==> final(self).boosts@ == kept_boosts(
                marked_boosts(frame_zone(*old(self), input), old(self).boosts@),
            ),
            old(self).play_state != PlayState::Dead && boost_spawn_due(*old(self), input)
                ==> final(self).boosts@.len() >= 1 && final(self).boosts@.drop_last()
                == kept_boosts(marked_boosts(frame_zone(*old(self), input), old(self).boosts@))
                && BOOST_Y_MIN <= final(self).boosts@.last().y < BOOST_Y_MAX && (exists|r: i64|
                0 <= r < BOOST_ROLL_MAX && final(self).boosts@.last() == boost_step(
                    #[trigger] boost_spawn(final(self).boosts@.last().y, r),
                )),
            // The countdowns: ticked while playing, redrawn from the fixed
            // range on a spawn.
            old(self).play_state != PlayState::Dead && !pipe_spawn_due(*old(self), input)
                ==> final(self).time_until_next_pipe as int == timer_after_tick(
                old(self).time_until_next_pipe,
                old(self).play_state == PlayState::Play,
                input.delta_ns,
            ),
            old(self).play_state != PlayState::Dead && pipe_spawn_due(*old(self), input)
                ==> PIPE_DELAY_MIN_NS <= final(self).time_until_next_pipe < PIPE_DELAY_MAX_NS,
            old(self).play_state != PlayState::Dead && !enemy_spawn_due(*old(self), input)
                ==> final(self).time_until_next_enemy as int == timer_after_tick(
                old(self).time_until_next_enemy,
                old(self).play_state == PlayState::Play,
                input.delta_ns,
            ),
            old(self).play_state != PlayState::Dead && enemy_spawn_due(*old(self), input)
                ==> ENEMY_DELAY_MIN_NS <= final(self).time_until_next_enemy < ENEMY_DELAY_MAX_NS,
            old(self).play_state != PlayState::Dead && !boost_spawn_due(*old(self), input)
                ==> final(self).time_until_next_boost as int == timer_after_tick(
                old(self).time_until_next_boost,
                old(self).play_state == PlayState::Play,
                input.delta_ns,
            ),
            old(self).play_state != PlayState::Dead && boost_spawn_due(*old(self), input)
                ==> BOOST_DELAY_MIN_NS <= final(self).time_until_next_boost < BOOST_DELAY_MAX_NS,
            // The boost effect state: the last collected speed boost wins;
            // with none collected, the ticked state stands.
            old(self).play_state != PlayState::Dead && frame_speed_grab(*old(self), input) == Some(
                BoostType::SpeedUp,
            ) ==> final(self).has_boost && final(self).boost_duration == BOOST_DURATION_NS
                && final(self).multiplier == MULT_FAST,
            old(self).play_state != PlayState::Dead && frame_speed_grab(*old(self), input) == Some(
                BoostType::SlowDown,
            ) ==> final(self).has_boost && final(self).boost_duration == BOOST_DURATION_NS
                && final(self).multiplier == MULT_SLOW,
            old(self).play_state != PlayState::Dead && frame_speed_grab(*old(self), input) is None
                ==> final(self).has_boost == has_boost_after_tick(*old(self), input.delta_ns)
                && final(self).boost_duration as int == duration_after_tick(
                *old(self),
                input.delta_ns,
            ) && final(self).multiplier == mult_after_tick(*old(self), input.delta_ns),
    {
        if self.play_state == PlayState::Dead {
            self.restart();
        }
        let ghost s1 = *self;
        self.tick(input.delta_ns);
        self.spawn_entities(input, Ghost(s1));
        let out = self.resolve_frame(input, Ghost(s1));
        proof {
            lemma_pipe_count_bounds(frame_zone(s1, input), s1.pipes@, mult_after_tick(s1, input.delta_ns));
            if old(self).play_state == PlayState::Dead {
                lemma_dead_case(s1, input);
            } else {
                assert(s1 == *old(self));
                if old(self).play_state == PlayState::StartScreen && old(self).pipes@.len() == 0
                    && old(self).enemies@.len() == 0 && old(self).boosts@.len() == 0 && old(
                    self,
                ).player.position_y <= FLOOR_LEVEL && old(self).player.physics.velocity <= JUMP {
                    lemma_idle_case(s1, input);
                }
            }
        }
        out
    }
}

} // verus!
