use sector_engine::input::{
    handle_window_event, Action, GameState, Key, WindowEvent, ANGLE_UNITS_PER_DEGREE,
};
use sector_engine::player::{
    body_spawn_translation, update_camera, update_player_physics, Camera, Position,
    VelocityOrder, BODY_SPAWN,
    EYE_HEIGHT, FAR_PLANE, FIELD_OF_VIEW_DEGREES, FORWARD_SPEED, JUMP_SPEED, NEAR_PLANE,
    SPAWN_POSITION,
};

fn state(up: bool, jump: bool) -> GameState {
    GameState { up, jump, ..GameState::new() }
}

fn velocity_orders(state: &GameState) -> Vec<VelocityOrder> {
    let mut camera = Camera::new();
    let direction = camera.direction;
    update_camera(&mut camera, state, direction)
}

fn position_of(translation: [f32; 3]) -> Position {
    let mut position = Position::spawn();
    update_player_physics(&mut position, translation.map(f32::to_bits));
    position
}

fn look_direction(state: &GameState) -> [f32; 3] {
    let yaw = (state.yaw as f32 / ANGLE_UNITS_PER_DEGREE as f32).to_radians();
    let pitch = (state.pitch as f32 / ANGLE_UNITS_PER_DEGREE as f32).to_radians();
    let d = [yaw.cos() * pitch.cos(), pitch.sin(), yaw.sin() * pitch.cos()];
    let length = (d[0] * d[0] + d[1] * d[1] + d[2] * d[2]).sqrt();
    [d[0] / length, d[1] / length, d[2] / length]
}

#[test]
fn speeds_and_eye_height() {
    assert_eq!(FORWARD_SPEED, 20);
    assert_eq!(JUMP_SPEED, 20);
    assert_eq!(EYE_HEIGHT, 20);
}

#[test]
fn projection_settings() {
    assert_eq!(FIELD_OF_VIEW_DEGREES, 90);
    assert_eq!(f32::from_bits(NEAR_PLANE), 0.1);
    assert_eq!(f32::from_bits(FAR_PLANE), 2000.0);
}

#[test]
fn body_is_spawned_in_physics_units() {
    assert_eq!(BODY_SPAWN.map(f32::from_bits), [1077.0, 20.0, -3600.0]);
    let translation = body_spawn_translation().map(f32::from_bits);
    assert_eq!(translation, [1077.0 / 4.0, 20.0 / 4.0, -3600.0 / 4.0]);
    let mut back = Position::spawn();
    update_player_physics(&mut back, body_spawn_translation());
    assert_eq!(back.coords, BODY_SPAWN);
}

#[test]
fn no_intent_orders_no_velocity() {
    assert!(velocity_orders(&state(false, false)).is_empty());
    let other = GameState { down: true, left: true, right: true, close: true, ..GameState::new() };
    assert!(velocity_orders(&other).is_empty());
}

#[test]
fn forward_intent_orders_the_forward_velocity() {
    assert_eq!(velocity_orders(&state(true, false)), vec![VelocityOrder::Forward]);
}

#[test]
fn jump_intent_orders_the_jump_velocity() {
    assert_eq!(velocity_orders(&state(false, true)), vec![VelocityOrder::Jump]);
}

#[test]
fn forward_and_jump_are_both_set_and_the_jump_stands() {
    let orders = velocity_orders(&state(true, true));
    assert_eq!(orders, vec![VelocityOrder::Forward, VelocityOrder::Jump]);
    assert_eq!(orders.last(), Some(&VelocityOrder::Jump));
}

#[test]
fn orders_follow_the_keys() {
    let mut s = GameState::new();
    handle_window_event(&mut s, WindowEvent::Key(Key::W, Action::Press));
    assert_eq!(velocity_orders(&s), vec![VelocityOrder::Forward]);
    handle_window_event(&mut s, WindowEvent::Key(Key::Space, Action::Press));
    assert_eq!(velocity_orders(&s), vec![VelocityOrder::Forward, VelocityOrder::Jump]);
    handle_window_event(&mut s, WindowEvent::Key(Key::W, Action::Release));
    assert_eq!(velocity_orders(&s), vec![VelocityOrder::Jump]);
    handle_window_event(&mut s, WindowEvent::Key(Key::Space, Action::Release));
    assert!(velocity_orders(&s).is_empty());
}

#[test]
fn player_spawns_at_the_spawn_position() {
    let position = Position::spawn();
    assert_eq!(position.coords, SPAWN_POSITION);
    assert_eq!(f32::from_bits(position.coords[0]), 1077.0);
    assert_eq!(f32::from_bits(position.coords[1]), 460.0);
    assert_eq!(f32::from_bits(position.coords[2]), -3600.0);
}

#[test]
fn position_is_the_body_translation_times_four() {
    let translation = [269.25f32, 5.0, -900.0];
    let position = position_of(translation);
    assert_eq!(position.coords.map(f32::from_bits), [1077.0, 20.0, -3600.0]);
    let translation = [0.1f32, -1.0e-40, 3.0e38];
    let position = position_of(translation);
    for axis in 0..3 {
        assert_eq!(position.coords[axis], (translation[axis] * 4.0).to_bits());
    }
    assert_eq!(f32::from_bits(position.coords[2]), f32::INFINITY);
}

#[test]
fn new_camera_looks_along_z_with_y_up() {
    let camera = Camera::new();
    assert_eq!(camera.direction.map(f32::from_bits), [0.0, 0.0, 1.0]);
    assert_eq!(camera.up.map(f32::from_bits), [0.0, 1.0, 0.0]);
}

#[test]
fn spawn_looks_along_z() {
    let position = Position::spawn();
    assert_eq!(position.coords.map(f32::from_bits), [1077.0, 460.0, -3600.0]);
    let state = GameState::new();
    assert_eq!(state.yaw, 90 * ANGLE_UNITS_PER_DEGREE);
    assert_eq!(state.pitch, 0);
    let derived = look_direction(&state);
    let spawned = Camera::new().direction.map(f32::from_bits);
    for axis in 0..3 {
        assert!((derived[axis] - spawned[axis]).abs() < 1e-6);
    }
    assert!((derived[0] - 0.0).abs() < 1e-6);
    assert!((derived[1] - 0.0).abs() < 1e-6);
    assert!((derived[2] - 1.0).abs() < 1e-6);
}

#[test]
fn camera_update_sets_the_direction_and_keeps_up() {
    let mut camera = Camera::new();
    let direction = [0.6f32, 0.0, -0.8].map(f32::to_bits);
    let orders = update_camera(&mut camera, &state(true, false), direction);
    assert_eq!(camera.direction, direction);
    assert_eq!(camera.up, Camera::new().up);
    assert_eq!(orders, vec![VelocityOrder::Forward]);
}
