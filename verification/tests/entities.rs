use flappy_ferris::entities::{
    BoostEntity, BoostType, EnemyEntity, Physics, PipeEntity, PlayState, PlayerEntity, BOOST_SPEED,
    ENEMY_SPEED, FERRIS_HEIGHT, FERRIS_WIDTH, GRAVITY, JUMP, MIDDLE, MULT_FAST, MULT_NORMAL,
    MULT_SLOW, PIPE_GAP, PIPE_SPEED, PLAYER_X, SCREEN_HEIGHT, SCREEN_WIDTH,
};
use flappy_ferris::geometry::Rect;

#[test]
fn play_state_queries() {
    let mut s = PlayState::StartScreen;
    assert!(!s.is_playing());
    s = PlayState::Play;
    assert!(s.is_playing());
    s.set_dead();
    assert_eq!(s, PlayState::Dead);
    assert!(!s.is_playing());
}

#[test]
fn physics_starts_at_rest() {
    let p = Physics::new();
    assert_eq!(p.velocity, 0);
    assert_eq!(p.acceleration, 0);
}

#[test]
fn player_starts_at_midline() {
    let p = PlayerEntity::new();
    assert_eq!(p.position_y, MIDDLE);
    assert_eq!(p.zone.x, PLAYER_X - FERRIS_WIDTH / 2);
    assert_eq!(p.zone.y, MIDDLE - FERRIS_HEIGHT / 2);
    assert_eq!(p.zone.w, FERRIS_WIDTH);
    assert_eq!(p.zone.h, FERRIS_HEIGHT);
    assert!(p.can_jump);
}

#[test]
fn player_jump_is_edge_triggered() {
    let mut p = PlayerEntity::new();
    // First frame: key pressed, jump accepted.
    p.update(&PlayState::Play, true, true);
    assert_eq!(p.physics.velocity, -JUMP + GRAVITY);
    assert!(!p.can_jump);
    // Second frame: key still held, no second jump.
    p.update(&PlayState::Play, true, true);
    assert_eq!(p.physics.velocity, -JUMP + 2 * GRAVITY);
    assert!(!p.can_jump);
    // Key released: the jump re-arms.
    p.update(&PlayState::Play, false, false);
    assert!(p.can_jump);
}

#[test]
fn player_free_fall_matches_closed_form() {
    // Scenario: at rest, no input, constant gravity for n frames. The
    // discrete integral is exact: v = GRAVITY*n, y gain = GRAVITY*n(n+1)/2.
    let mut p = PlayerEntity::new();
    let y0 = p.position_y;
    let n: i64 = 10;
    for _ in 0..n {
        p.update(&PlayState::Play, false, false);
    }
    assert_eq!(p.physics.velocity, GRAVITY * n);
    assert_eq!(p.position_y, y0 + GRAVITY * n * (n + 1) / 2);
    assert_eq!(p.zone.y, p.position_y - FERRIS_HEIGHT / 2);
}

#[test]
fn player_auto_jump_on_start_screen() {
    let mut p = PlayerEntity::new();
    // At the midline on the start screen the idle bounce fires.
    p.update(&PlayState::StartScreen, false, false);
    assert_eq!(p.physics.velocity, -JUMP + GRAVITY);
    assert_eq!(p.position_y, MIDDLE - JUMP + GRAVITY);
}

#[test]
fn player_ceiling_clamp() {
    let mut p = PlayerEntity::new();
    p.position_y = FERRIS_HEIGHT / 2 + 10;
    p.zone.y = p.position_y - FERRIS_HEIGHT / 2;
    p.update(&PlayState::Play, true, false);
    // The jump would carry the player above the top of the screen; the
    // clamp holds it at half its height.
    assert_eq!(p.position_y, FERRIS_HEIGHT / 2);
    assert_eq!(p.zone.y, 0);
}

#[test]
fn player_ground_queries() {
    let mut p = PlayerEntity::new();
    assert!(!p.hits_ground());
    p.position_y = 2800;
    p.zone.y = p.position_y - FERRIS_HEIGHT / 2;
    assert!(p.hits_ground());
    p.prevent_hitting_ground();
    assert_eq!(p.position_y, MIDDLE);
    assert_eq!(p.zone.y, MIDDLE - FERRIS_HEIGHT / 2);
}

#[test]
fn pipe_gap_invariant_holds_and_moves() {
    let mut pipe = PipeEntity::new(300);
    assert_eq!(pipe.top_zone.h + PIPE_GAP + pipe.bottom_zone.h, SCREEN_HEIGHT);
    assert_eq!(pipe.x, SCREEN_WIDTH + 256);
    assert!(!pipe.is_passed);
    pipe.update(MULT_NORMAL);
    assert_eq!(pipe.top_zone.h + PIPE_GAP + pipe.bottom_zone.h, SCREEN_HEIGHT);
    assert_eq!(pipe.x, SCREEN_WIDTH + 256 - PIPE_SPEED);
    assert_eq!(pipe.top_zone.x, pipe.x - 256);
    assert_eq!(pipe.bottom_zone.x, pipe.x - 256);
    pipe.update(MULT_SLOW);
    assert_eq!(pipe.x, SCREEN_WIDTH + 256 - PIPE_SPEED - PIPE_SPEED / 2);
    pipe.update(MULT_FAST);
    assert_eq!(pipe.x, SCREEN_WIDTH + 256 - 2 * PIPE_SPEED - PIPE_SPEED / 2 - PIPE_SPEED / 2);
    assert_eq!(pipe.top_zone.h + PIPE_GAP + pipe.bottom_zone.h, SCREEN_HEIGHT);
}

#[test]
fn enemy_moves_with_multiplier() {
    let mut e = EnemyEntity::new(400);
    assert_eq!(e.x, SCREEN_WIDTH + 256);
    e.update(MULT_NORMAL);
    assert_eq!(e.x, SCREEN_WIDTH + 256 - ENEMY_SPEED);
    e.update(MULT_FAST);
    assert_eq!(e.x, SCREEN_WIDTH + 256 - ENEMY_SPEED - ENEMY_SPEED * 3 / 2);
    assert_eq!(e.zone.x, e.x - 256);
}

#[test]
fn boost_ignores_multiplier() {
    let mut b = BoostEntity::new(400, 1200);
    assert_eq!(b.x, SCREEN_WIDTH + 128);
    b.update();
    assert_eq!(b.x, SCREEN_WIDTH + 128 - BOOST_SPEED);
    assert_eq!(b.zone.x, b.x - 128);
}

#[test]
fn boost_effect_thresholds() {
    assert_eq!(BoostEntity::new(400, 0).effect, BoostType::BonusLife);
    assert_eq!(BoostEntity::new(400, 199).effect, BoostType::BonusLife);
    assert_eq!(BoostEntity::new(400, 200).effect, BoostType::SpeedUp);
    assert_eq!(BoostEntity::new(400, 999).effect, BoostType::SpeedUp);
    assert_eq!(BoostEntity::new(400, 1000).effect, BoostType::SlowDown);
    assert_eq!(BoostEntity::new(400, 1799).effect, BoostType::SlowDown);
}

#[test]
fn rect_overlap_is_strict() {
    let a = Rect { x: 0, y: 0, w: 10, h: 10 };
    // Sharing an edge is not an overlap.
    let right_touch = Rect { x: 10, y: 0, w: 10, h: 10 };
    assert!(!a.overlaps(&right_touch));
    let below_touch = Rect { x: 0, y: 10, w: 10, h: 10 };
    assert!(!a.overlaps(&below_touch));
    // Sharing a corner is not an overlap.
    let corner = Rect { x: 10, y: 10, w: 5, h: 5 };
    assert!(!a.overlaps(&corner));
    // One unit of intersection is.
    let over = Rect { x: 9, y: 9, w: 10, h: 10 };
    assert!(a.overlaps(&over));
    assert!(over.overlaps(&a));
}
