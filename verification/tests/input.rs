use sector_engine::input::{
    handle_window_event, Action, GameState, Key, WindowEvent, ANGLE_UNITS_PER_DEGREE,
    CURSOR_UNITS_PER_PIXEL, PIXELS_PER_DEGREE, START_YAW,
};

fn pixels(p: i64) -> i64 {
    p * CURSOR_UNITS_PER_PIXEL
}

#[test]
fn new_state_has_no_intent_and_looks_a_quarter_turn() {
    let s = GameState::new();
    assert!(!s.close && !s.up && !s.down && !s.left && !s.right && !s.jump);
    assert!(s.first_mouse);
    assert_eq!((s.last_mouse_x, s.last_mouse_y), (0, 0));
    assert_eq!(s.yaw, 90 * ANGLE_UNITS_PER_DEGREE);
    assert_eq!(s.yaw, START_YAW);
    assert_eq!(s.pitch, 0);
}

#[test]
fn units_give_a_tenth_of_a_degree_for_each_pixel() {
    assert_eq!(ANGLE_UNITS_PER_DEGREE, PIXELS_PER_DEGREE * CURSOR_UNITS_PER_PIXEL);
    assert_eq!(PIXELS_PER_DEGREE, 10);
}

#[test]
fn press_sets_and_release_clears_each_intent() {
    let keys = [Key::W, Key::S, Key::A, Key::D, Key::Space];
    for (n, key) in keys.iter().enumerate() {
        let mut s = GameState::new();
        handle_window_event(&mut s, WindowEvent::Key(*key, Action::Press));
        assert_eq!([s.up, s.down, s.left, s.right, s.jump].iter().filter(|b| **b).count(), 1);
        assert!([s.up, s.down, s.left, s.right, s.jump][n]);
        assert!(!s.close);
        handle_window_event(&mut s, WindowEvent::Key(*key, Action::Release));
        assert_eq!(s, GameState::new());
    }
}

#[test]
fn press_twice_stays_set() {
    let mut s = GameState::new();
    handle_window_event(&mut s, WindowEvent::Key(Key::W, Action::Press));
    handle_window_event(&mut s, WindowEvent::Key(Key::W, Action::Press));
    assert!(s.up);
    handle_window_event(&mut s, WindowEvent::Key(Key::W, Action::Repeat));
    assert!(s.up);
}

#[test]
fn escape_press_requests_the_close() {
    let mut s = GameState::new();
    handle_window_event(&mut s, WindowEvent::Key(Key::Escape, Action::Release));
    assert!(!s.close);
    handle_window_event(&mut s, WindowEvent::Key(Key::Escape, Action::Repeat));
    assert!(!s.close);
    handle_window_event(&mut s, WindowEvent::Key(Key::Escape, Action::Press));
    assert!(s.close);
    handle_window_event(&mut s, WindowEvent::Key(Key::Escape, Action::Release));
    assert!(s.close);
}

#[test]
fn window_close_requests_the_close() {
    let mut s = GameState::new();
    handle_window_event(&mut s, WindowEvent::Close);
    assert!(s.close);
    let expected = GameState { close: true, ..GameState::new() };
    assert_eq!(s, expected);
}

#[test]
fn unknown_keys_and_events_change_nothing() {
    let mut s = GameState::new();
    handle_window_event(&mut s, WindowEvent::Key(Key::Other, Action::Press));
    handle_window_event(&mut s, WindowEvent::Key(Key::Other, Action::Release));
    handle_window_event(&mut s, WindowEvent::Other);
    assert_eq!(s, GameState::new());
}

#[test]
fn first_cursor_sample_only_latches() {
    let mut s = GameState::new();
    handle_window_event(&mut s, WindowEvent::CursorPos(pixels(640), pixels(360)));
    assert_eq!(s.yaw, START_YAW);
    assert_eq!(s.pitch, 0);
    assert!(!s.first_mouse);
    assert_eq!((s.last_mouse_x, s.last_mouse_y), (pixels(640), pixels(360)));
}

#[test]
fn second_cursor_sample_turns_by_delta_times_sensitivity() {
    let mut s = GameState::new();
    handle_window_event(&mut s, WindowEvent::CursorPos(pixels(640), pixels(360)));
    // 50 pixels to the right and 20 pixels down the screen.
    handle_window_event(&mut s, WindowEvent::CursorPos(pixels(690), pixels(380)));
    // A tenth of a degree for each pixel: yaw falls by 5 degrees, pitch
    // rises by 2.
    assert_eq!(s.yaw, 85 * ANGLE_UNITS_PER_DEGREE);
    assert_eq!(s.pitch, 2 * ANGLE_UNITS_PER_DEGREE);
    assert_eq!((s.last_mouse_x, s.last_mouse_y), (pixels(690), pixels(380)));
    let degrees = s.yaw as f64 / ANGLE_UNITS_PER_DEGREE as f64;
    assert!((degrees - (90.0 - 50.0 * 0.1)).abs() < 1e-9);
}

#[test]
fn each_sample_is_measured_from_the_one_before() {
    let mut s = GameState::new();
    handle_window_event(&mut s, WindowEvent::CursorPos(0, 0));
    handle_window_event(&mut s, WindowEvent::CursorPos(100, -40));
    handle_window_event(&mut s, WindowEvent::CursorPos(70, -10));
    assert_eq!(s.yaw, START_YAW - 70);
    assert_eq!(s.pitch, -10);
    handle_window_event(&mut s, WindowEvent::CursorPos(70, -10));
    assert_eq!(s.yaw, START_YAW - 70);
    assert_eq!(s.pitch, -10);
}

#[test]
fn pitch_is_not_limited_at_the_poles() {
    let mut s = GameState::new();
    handle_window_event(&mut s, WindowEvent::CursorPos(0, 0));
    handle_window_event(&mut s, WindowEvent::CursorPos(0, pixels(2000)));
    assert_eq!(s.pitch, 200 * ANGLE_UNITS_PER_DEGREE);
    handle_window_event(&mut s, WindowEvent::CursorPos(0, pixels(-3000)));
    assert_eq!(s.pitch, -300 * ANGLE_UNITS_PER_DEGREE);
}

#[test]
fn angles_stop_at_the_ends_of_their_type() {
    let mut s = GameState::new();
    handle_window_event(&mut s, WindowEvent::CursorPos(i64::MAX, i64::MIN));
    handle_window_event(&mut s, WindowEvent::CursorPos(i64::MIN, i64::MAX));
    assert_eq!(s.yaw, i64::MAX);
    assert_eq!(s.pitch, i64::MAX);
    handle_window_event(&mut s, WindowEvent::CursorPos(i64::MAX, i64::MIN));
    assert_eq!(s.yaw, i64::MIN);
    assert_eq!(s.pitch, i64::MIN);
    handle_window_event(&mut s, WindowEvent::CursorPos(i64::MAX - 1, i64::MIN));
    assert_eq!(s.yaw, i64::MIN + 1);
    assert_eq!(s.pitch, i64::MIN);
    handle_window_event(&mut s, WindowEvent::CursorPos(i64::MAX, i64::MIN));
    assert_eq!(s.yaw, i64::MIN);
    assert_eq!((s.last_mouse_x, s.last_mouse_y), (i64::MAX, i64::MIN));
}

#[test]
fn cursor_samples_leave_intents_alone() {
    let mut s = GameState::new();
    handle_window_event(&mut s, WindowEvent::Key(Key::W, Action::Press));
    handle_window_event(&mut s, WindowEvent::Key(Key::Space, Action::Press));
    handle_window_event(&mut s, WindowEvent::CursorPos(5, 5));
    handle_window_event(&mut s, WindowEvent::CursorPos(9, 1));
    assert!(s.up && s.jump && !s.down && !s.left && !s.right && !s.close);
}
