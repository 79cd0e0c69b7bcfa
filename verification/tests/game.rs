use coolgame::game::{laser_draw_x, Input, Laser, MyGame, LASER_SPEED, PLAYER_SPEED};

fn keys(fire: bool, left: bool, right: bool, up: bool, down: bool) -> Input {
    Input { fire, left, right, up, down }
}

fn idle() -> Input {
    keys(false, false, false, false, false)
}

const SCREEN_W: i32 = 800;
const SCREEN_H: i32 = 600;
const SPRITE_W: i32 = 64;
const SPRITE_H: i32 = 66;

#[test]
fn initial_state_values() {
    let game = MyGame::new();
    assert_eq!(game.score, 0);
    assert!(!game.keydown);
    assert_eq!(game.x, 50);
    assert_eq!(game.y, 50);
    assert!(game.right_facing);
    assert_eq!(game.laser_positions.len(), 0);
}

#[test]
fn laser_new_fields() {
    let laser = Laser::new(120, -7, false);
    assert_eq!(laser.x, 120);
    assert_eq!(laser.y, -7);
    assert!(!laser.right_facing);
}

#[test]
fn fire_press_scores_once() {
    // Initial state (x=50, y=50, facing right, score 0); one fire press.
    let mut game = MyGame::new();
    game.update(keys(true, false, false, false, false), SCREEN_W, SCREEN_H, SPRITE_W, SPRITE_H);
    assert_eq!(game.score, 1);
    assert!(game.keydown);
    assert_eq!(game.laser_positions.len(), 1);
    assert_eq!(game.laser_positions[0].x, 50);
    assert_eq!(game.laser_positions[0].y, 50 + SPRITE_H / 6);
    assert!(game.laser_positions[0].right_facing);
    // Next frame with fire still held: the score stays at 1.
    game.update(keys(true, false, false, false, false), SCREEN_W, SCREEN_H, SPRITE_W, SPRITE_H);
    assert_eq!(game.score, 1);
    assert_eq!(game.laser_positions.len(), 1);
}

#[test]
fn hold_fire_many_frames() {
    let mut game = MyGame::new();
    for _ in 0..5 {
        game.update(keys(true, false, false, false, false), SCREEN_W, SCREEN_H, SPRITE_W, SPRITE_H);
    }
    assert_eq!(game.score, 1);
}

#[test]
fn fire_release_and_repress() {
    let mut game = MyGame::new();
    game.update(keys(true, false, false, false, false), SCREEN_W, SCREEN_H, SPRITE_W, SPRITE_H);
    game.update(idle(), SCREEN_W, SCREEN_H, SPRITE_W, SPRITE_H);
    assert!(!game.keydown);
    game.update(keys(true, false, false, false, false), SCREEN_W, SCREEN_H, SPRITE_W, SPRITE_H);
    assert_eq!(game.score, 2);
}

#[test]
fn right_clamp_near_edge() {
    // Screen 80 wide, sprite 40 wide: a move is allowed while x + 10 < 80,
    // so from x=50 the clamp triggers on the third of five right presses.
    let mut game = MyGame::new();
    let mut positions = Vec::new();
    for _ in 0..5 {
        game.update(keys(false, false, true, false, false), 80, SCREEN_H, 40, SPRITE_H);
        positions.push(game.x);
        assert!(game.right_facing);
    }
    assert_eq!(positions, vec![60, 70, 70, 70, 70]);
}

#[test]
fn left_clamp_at_edge() {
    // Sprite 40 wide: a move is allowed while x - 10 > 0, so x stops at 10.
    let mut game = MyGame::new();
    for _ in 0..8 {
        game.update(keys(false, true, false, false, false), SCREEN_W, SCREEN_H, 40, SPRITE_H);
        assert!(!game.right_facing);
        assert!(game.x >= 10);
    }
    assert_eq!(game.x, 10);
}

#[test]
fn both_horizontal_keys_cancel_and_face_left() {
    // Both horizontal keys in one frame: the move-right step runs first,
    // the move-left step last, so x is unchanged and the facing ends left.
    let mut game = MyGame::new();
    game.update(keys(false, true, true, false, false), SCREEN_W, SCREEN_H, SPRITE_W, SPRITE_H);
    assert_eq!(game.x, 50);
    assert!(!game.right_facing);
}

#[test]
fn vertical_clamps() {
    let mut game = MyGame::new();
    for _ in 0..7 {
        game.update(keys(false, false, false, true, false), SCREEN_W, SCREEN_H, SPRITE_W, SPRITE_H);
    }
    assert_eq!(game.y, 0);
    // Screen 100 tall, sprite 66 tall: a move is allowed while y + 33 < 100.
    for _ in 0..8 {
        game.update(keys(false, false, false, false, true), SCREEN_W, 100, SPRITE_W, SPRITE_H);
    }
    assert_eq!(game.y, 70);
}

#[test]
fn diagonal_moves_both_axes() {
    let mut game = MyGame::new();
    game.update(keys(false, false, true, true, false), SCREEN_W, SCREEN_H, SPRITE_W, SPRITE_H);
    assert_eq!(game.x, 50 + PLAYER_SPEED);
    assert_eq!(game.y, 50 - PLAYER_SPEED);
}

#[test]
fn laser_flight_and_removal() {
    // Screen 170 wide: a right-facing laser fired at x=50 sits at 100 and
    // 150 after its first two frames, leaves the screen on the third, and
    // is dropped by the following frame's update.
    let fire = keys(true, false, false, false, false);
    let held = keys(true, false, false, false, false);
    let mut game = MyGame::new();
    game.update(fire, 170, SCREEN_H, SPRITE_W, SPRITE_H);
    game.advance_lasers();
    assert_eq!(game.laser_positions.len(), 1);
    assert_eq!(game.laser_positions[0].x, 50 + LASER_SPEED);
    game.update(held, 170, SCREEN_H, SPRITE_W, SPRITE_H);
    game.advance_lasers();
    assert_eq!(game.laser_positions[0].x, 50 + 2 * LASER_SPEED);
    game.update(held, 170, SCREEN_H, SPRITE_W, SPRITE_H);
    game.advance_lasers();
    assert_eq!(game.laser_positions[0].x, 50 + 3 * LASER_SPEED);
    assert!(game.laser_positions[0].x > 170);
    game.update(held, 170, SCREEN_H, SPRITE_W, SPRITE_H);
    assert_eq!(game.laser_positions.len(), 0);
}

#[test]
fn left_facing_laser_travels_left() {
    let mut game = MyGame::new();
    game.update(keys(false, true, false, false, false), SCREEN_W, SCREEN_H, SPRITE_W, SPRITE_H);
    assert!(!game.right_facing);
    game.update(keys(true, false, false, false, false), SCREEN_W, SCREEN_H, SPRITE_W, SPRITE_H);
    assert_eq!(game.laser_positions.len(), 1);
    assert!(!game.laser_positions[0].right_facing);
    let x0 = game.laser_positions[0].x;
    game.advance_lasers();
    assert_eq!(game.laser_positions[0].x, x0 - LASER_SPEED);
}

#[test]
fn update_drops_offscreen_lasers_before_firing() {
    let mut game = MyGame::new();
    game.laser_positions = vec![
        Laser::new(0, 10, true),
        Laser::new(1, 10, true),
        Laser::new(79, 10, false),
        Laser::new(80, 10, true),
        Laser::new(-30, 10, false),
    ];
    // x must lie within [0, 80) to survive; a laser fired on the same
    // frame is appended after the filter and so always survives it.
    game.update(keys(true, false, false, false, false), 80, SCREEN_H, 40, SPRITE_H);
    assert_eq!(game.laser_positions.len(), 4);
    assert_eq!(game.laser_positions[0].x, 0);
    assert_eq!(game.laser_positions[1].x, 1);
    assert_eq!(game.laser_positions[2].x, 79);
    assert_eq!(game.laser_positions[3].x, game.x);
}

#[test]
fn laser_draw_offsets() {
    assert_eq!(laser_draw_x(&Laser::new(100, 5, true)), 140);
    assert_eq!(laser_draw_x(&Laser::new(100, 5, false)), 60);
}

#[test]
fn fire_key_up_clears_held_flag_every_frame() {
    let mut game = MyGame::new();
    game.keydown = true;
    game.update(idle(), SCREEN_W, SCREEN_H, SPRITE_W, SPRITE_H);
    assert!(!game.keydown);
    assert_eq!(game.score, 0);
}
