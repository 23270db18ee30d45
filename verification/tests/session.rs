use flappy_ferris::entities::{
    BoostEntity, BoostType, EnemyEntity, PipeEntity, PlayState, FERRIS_HEIGHT, MIDDLE, MULT_FAST,
    MULT_NORMAL, MULT_SLOW, PLAYER_X,
};
use flappy_ferris::session::{
    FrameInput, MainState, BOOST_DURATION_NS, BOOST_SPAWN_FIRST_NS, ENEMY_SPAWN_FIRST_NS,
    PIPE_DELAY_MAX_NS, PIPE_DELAY_MIN_NS, PIPE_SPAWN_FIRST_NS, PIPE_Y_MAX, PIPE_Y_MIN,
};

fn quiet(delta_ns: u64) -> FrameInput {
    FrameInput { delta_ns, jump_pressed: false, jump_held: false }
}

fn jumping(delta_ns: u64) -> FrameInput {
    FrameInput { delta_ns, jump_pressed: true, jump_held: true }
}

/// Moves a pipe to horizontal position `x`, hitboxes in tow.
fn place_pipe(pipe: &mut PipeEntity, x: i64) {
    pipe.x = x;
    pipe.top_zone.x = x - 256;
    pipe.bottom_zone.x = x - 256;
}

fn place_enemy(enemy: &mut EnemyEntity, x: i64) {
    enemy.x = x;
    enemy.zone.x = x - 256;
}

fn place_boost(boost: &mut BoostEntity, x: i64) {
    boost.x = x;
    boost.zone.x = x - 128;
}

#[test]
fn fresh_session() {
    let s = MainState::new();
    assert_eq!(s.play_state, PlayState::StartScreen);
    assert_eq!(s.lives, 1);
    assert_eq!(s.score, 0);
    assert_eq!(s.best_score, 0);
    assert_eq!(s.multiplier, MULT_NORMAL);
    assert!(!s.has_boost);
    assert_eq!(s.time_until_next_pipe, PIPE_SPAWN_FIRST_NS);
    assert_eq!(s.time_until_next_enemy, ENEMY_SPAWN_FIRST_NS);
    assert_eq!(s.time_until_next_boost, BOOST_SPAWN_FIRST_NS);
    assert!(s.pipes.is_empty() && s.enemies.is_empty() && s.boosts.is_empty());
}

#[test]
fn start_screen_frame_is_idle() {
    // On the start screen no countdown moves, nothing spawns, and score
    // and lives stand still, whatever time passes.
    let mut s = MainState::new();
    for _ in 0..5 {
        let out = s.update(quiet(16_000_000));
        assert_eq!(s.play_state, PlayState::StartScreen);
        assert_eq!(s.time_until_next_pipe, PIPE_SPAWN_FIRST_NS);
        assert_eq!(s.time_until_next_enemy, ENEMY_SPAWN_FIRST_NS);
        assert_eq!(s.time_until_next_boost, BOOST_SPAWN_FIRST_NS);
        assert!(s.pipes.is_empty() && s.enemies.is_empty() && s.boosts.is_empty());
        assert_eq!(s.score, 0);
        assert_eq!(s.lives, 1);
        assert!(!out.died);
        assert_eq!(out.boosts_collected, 0);
    }
}

#[test]
fn jump_starts_the_round() {
    let mut s = MainState::new();
    s.update(jumping(16_000_000));
    assert_eq!(s.play_state, PlayState::Play);
}

#[test]
fn countdowns_tick_while_playing() {
    let mut s = MainState::new();
    s.play_state = PlayState::Play;
    s.update(quiet(250_000_000));
    assert_eq!(s.time_until_next_pipe, PIPE_SPAWN_FIRST_NS - 250_000_000);
    assert_eq!(s.time_until_next_enemy, ENEMY_SPAWN_FIRST_NS - 250_000_000);
    assert_eq!(s.time_until_next_boost, BOOST_SPAWN_FIRST_NS - 250_000_000);
    assert!(s.pipes.is_empty());
}

#[test]
fn expired_countdown_spawns_a_pipe() {
    let mut s = MainState::new();
    s.play_state = PlayState::Play;
    s.time_until_next_pipe = 1_000_000;
    s.update(quiet(2_000_000));
    assert_eq!(s.pipes.len(), 1);
    let pipe = s.pipes[0];
    // Spawned at the right edge, then moved one frame left.
    assert_eq!(pipe.x, 4352 - 18);
    assert!(PIPE_Y_MIN <= pipe.gap_top && pipe.gap_top < PIPE_Y_MAX);
    assert!(PIPE_DELAY_MIN_NS <= s.time_until_next_pipe && s.time_until_next_pipe
        < PIPE_DELAY_MAX_NS);
}

#[test]
fn pipe_scores_when_fully_past() {
    let mut s = MainState::new();
    s.play_state = PlayState::Play;
    let mut pipe = PipeEntity::new(300);
    place_pipe(&mut pipe, -238);
    s.pipes.push(pipe);
    let out = s.update(quiet(0));
    assert_eq!(s.score, 1);
    assert!(s.pipes.is_empty());
    assert!(!out.died);
    assert_eq!(s.lives, 1);
}

#[test]
fn pipe_hit_consumes_spare_life() {
    let mut s = MainState::new();
    s.play_state = PlayState::Play;
    s.lives = 2;
    let mut pipe = PipeEntity::new(300);
    place_pipe(&mut pipe, PLAYER_X + 18);
    s.pipes.push(pipe);
    let out = s.update(quiet(0));
    assert_eq!(s.lives, 1);
    assert!(s.pipes.is_empty());
    assert_eq!(s.play_state, PlayState::Play);
    assert!(!out.died);
    assert_eq!(s.score, 0);
}

#[test]
fn pipe_hit_on_last_life_is_fatal() {
    let mut s = MainState::new();
    s.play_state = PlayState::Play;
    s.lives = 1;
    let mut pipe = PipeEntity::new(300);
    place_pipe(&mut pipe, PLAYER_X + 18);
    s.pipes.push(pipe);
    let out = s.update(quiet(0));
    assert!(out.died);
    assert_eq!(s.play_state, PlayState::Dead);
    assert!(s.hit_pipe);
    // The fatal branch does not mark the pipe passed, so it survives the
    // prune.
    assert_eq!(s.pipes.len(), 1);
}

#[test]
fn zero_area_contact_is_no_hit() {
    // The pipe's bottom zone starts exactly where the player's hitbox
    // ends: a zero-area contact, which strict overlap ignores.
    let mut s = MainState::new();
    s.play_state = PlayState::Play;
    let gap_top = MIDDLE + GRAVITY_STEP_BOTTOM - 640;
    let mut pipe = PipeEntity::new(gap_top);
    place_pipe(&mut pipe, PLAYER_X + 18);
    s.pipes.push(pipe);
    let out = s.update(quiet(0));
    assert_eq!(s.lives, 1);
    assert_eq!(s.pipes.len(), 1);
    assert!(!out.died);
    assert_eq!(s.play_state, PlayState::Play);
}

// After one frame of gravity the player's hitbox ends at
// MIDDLE + GRAVITY + FERRIS_HEIGHT / 2.
const GRAVITY_STEP_BOTTOM: i64 = 2 + FERRIS_HEIGHT / 2;

#[test]
fn floor_with_last_life_is_fatal() {
    let mut s = MainState::new();
    s.play_state = PlayState::Play;
    s.lives = 1;
    s.player.position_y = 2800;
    s.player.zone.y = 2800 - FERRIS_HEIGHT / 2;
    let out = s.update(quiet(0));
    assert!(out.died);
    assert_eq!(s.play_state, PlayState::Dead);
    // The fatal path does not touch the life count.
    assert_eq!(s.lives, 1);
    assert_eq!(out.boosts_collected, 0);
}

#[test]
fn floor_with_spare_life_snaps_to_midline() {
    let mut s = MainState::new();
    s.play_state = PlayState::Play;
    s.lives = 2;
    s.player.position_y = 2800;
    s.player.zone.y = 2800 - FERRIS_HEIGHT / 2;
    let out = s.update(quiet(0));
    assert!(!out.died);
    assert_eq!(s.play_state, PlayState::Play);
    assert_eq!(s.lives, 1);
    assert_eq!(s.player.position_y, MIDDLE);
    assert_eq!(s.player.zone.y, MIDDLE - FERRIS_HEIGHT / 2);
}

#[test]
fn bonus_life_boost_adds_a_life() {
    let mut s = MainState::new();
    s.play_state = PlayState::Play;
    s.lives = 1;
    let mut boost = BoostEntity::new(MIDDLE, 0);
    assert_eq!(boost.effect, BoostType::BonusLife);
    place_boost(&mut boost, PLAYER_X + 28);
    s.boosts.push(boost);
    let out = s.update(quiet(0));
    assert_eq!(s.lives, 2);
    assert_eq!(out.boosts_collected, 1);
    // Collected, so removed by the prune; the speed state is untouched.
    assert!(s.boosts.is_empty());
    assert!(!s.has_boost);
    assert_eq!(s.multiplier, MULT_NORMAL);
    assert_eq!(s.boost_duration, 0);
}

#[test]
fn speed_up_replaces_active_boost_and_spawns_stay_suppressed() {
    let mut s = MainState::new();
    s.play_state = PlayState::Play;
    s.has_boost = true;
    s.boost_duration = 5_000_000_000;
    s.multiplier = MULT_SLOW;
    // The boost countdown has expired, but a boost is active, so no new
    // boost spawns; a boost already on screen is still collectible.
    s.time_until_next_boost = 0;
    let mut boost = BoostEntity::new(MIDDLE, 500);
    assert_eq!(boost.effect, BoostType::SpeedUp);
    place_boost(&mut boost, PLAYER_X + 28);
    s.boosts.push(boost);
    let out = s.update(quiet(1_000));
    assert_eq!(out.boosts_collected, 1);
    assert_eq!(s.multiplier, MULT_FAST);
    assert_eq!(s.boost_duration, BOOST_DURATION_NS);
    assert!(s.has_boost);
    // Collected and pruned, and no spawn happened: the countdown was not
    // redrawn, it just kept ticking.
    assert!(s.boosts.is_empty());
    assert_eq!(s.time_until_next_boost, -1_000);
}

#[test]
fn boost_expiry_restores_normal_speed() {
    let mut s = MainState::new();
    s.play_state = PlayState::Play;
    s.has_boost = true;
    s.boost_duration = 100;
    s.multiplier = MULT_FAST;
    s.update(quiet(200));
    assert!(!s.has_boost);
    assert_eq!(s.multiplier, MULT_NORMAL);
}

#[test]
fn enemy_hit_consumes_spare_life() {
    let mut s = MainState::new();
    s.play_state = PlayState::Play;
    s.lives = 2;
    let mut enemy = EnemyEntity::new(MIDDLE);
    place_enemy(&mut enemy, PLAYER_X + 22);
    s.enemies.push(enemy);
    let out = s.update(quiet(0));
    assert_eq!(s.lives, 1);
    assert!(s.enemies.is_empty());
    assert!(!out.died);
}

#[test]
fn enemy_passing_off_screen_awards_no_score() {
    let mut s = MainState::new();
    s.play_state = PlayState::Play;
    let mut enemy = EnemyEntity::new(MIDDLE);
    place_enemy(&mut enemy, -240);
    s.enemies.push(enemy);
    s.update(quiet(0));
    assert!(s.enemies.is_empty());
    assert_eq!(s.score, 0);
}

#[test]
fn game_over_resets_round_and_keeps_best_score() {
    let mut s = MainState::new();
    s.play_state = PlayState::Dead;
    s.score = 5;
    s.best_score = 3;
    s.lives = 0;
    let out = s.update(quiet(16_000_000));
    assert_eq!(s.best_score, 5);
    assert_eq!(s.score, 0);
    assert_eq!(s.lives, 1);
    assert_eq!(s.play_state, PlayState::Dead);
    assert!(!out.died);
    assert_eq!(s.time_until_next_pipe, PIPE_SPAWN_FIRST_NS);
    assert!(s.pipes.is_empty() && s.enemies.is_empty() && s.boosts.is_empty());
    // A lower outgoing score never lowers the best.
    s.play_state = PlayState::Dead;
    s.score = 2;
    s.update(quiet(16_000_000));
    assert_eq!(s.best_score, 5);
}

#[test]
fn jump_restarts_straight_from_game_over() {
    let mut s = MainState::new();
    s.play_state = PlayState::Dead;
    s.update(jumping(16_000_000));
    assert_eq!(s.play_state, PlayState::Play);
    assert_eq!(s.score, 0);
}

#[test]
fn prune_is_idempotent() {
    let mut s = MainState::new();
    let kept = PipeEntity::new(300);
    let mut gone = PipeEntity::new(400);
    gone.is_passed = true;
    s.pipes.push(kept);
    s.pipes.push(gone);
    s.pipes.push(PipeEntity::new(500));
    s.prune_pipes();
    let once = s.pipes.clone();
    s.prune_pipes();
    assert_eq!(s.pipes, once);
    assert_eq!(s.pipes.len(), 2);

    let mut taken = BoostEntity::new(400, 0);
    taken.is_collected = true;
    let mut missed = BoostEntity::new(500, 300);
    missed.is_passed = true;
    s.boosts.push(taken);
    s.boosts.push(BoostEntity::new(600, 1200));
    s.boosts.push(missed);
    s.prune_boosts();
    let boosts_once = s.boosts.clone();
    s.prune_boosts();
    assert_eq!(s.boosts, boosts_once);
    assert_eq!(s.boosts.len(), 1);

    let mut past = EnemyEntity::new(700);
    past.is_passed = true;
    s.enemies.push(past);
    s.prune_enemies();
    let enemies_once = s.enemies.clone();
    s.prune_enemies();
    assert_eq!(s.enemies, enemies_once);
    assert!(s.enemies.is_empty());
}

#[test]
fn score_never_decreases_within_a_round() {
    let mut s = MainState::new();
    s.play_state = PlayState::Play;
    let mut last = 0;
    for i in 0..4 {
        let mut pipe = PipeEntity::new(300);
        place_pipe(&mut pipe, -238 - i);
        s.pipes.push(pipe);
        s.update(quiet(0));
        assert!(s.score >= last);
        last = s.score;
    }
    assert_eq!(s.score, 4);
}
