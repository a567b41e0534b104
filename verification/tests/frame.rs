use sector_engine::encode::encode;
use sector_engine::format::SourceSector;
use sector_engine::frame::{
    draw_list, poll_input, DeltaTime, DrawCall, FrameClock, FrameLoop, Outcome, Phase, Step,
    Surface,
};
use sector_engine::input::{Action, GameState, Key, WindowEvent, START_YAW};
use sector_engine::map::load_map;
use sector_engine::mesh::{MeshData, Vertex};

const ORDER: [Step; 9] = [
    Step::MeasureTime,
    Step::PollInput,
    Step::StepPhysics,
    Step::ReadBackPosition,
    Step::UpdateCamera,
    Step::AcquireTarget,
    Step::UploadUniforms,
    Step::Draw,
    Step::SubmitAndPresent,
];

fn flat_mesh(triangles: u32) -> MeshData {
    let corner = Vertex { position: [0, 0, 0], color: [0, 0, 0] };
    let mut indices = Vec::new();
    for _ in 0..triangles {
        indices.extend([0, 1, 2]);
    }
    MeshData { vertices: vec![corner, corner, corner], indices }
}

fn frame_loop_at(step: Step, closing: bool) -> FrameLoop {
    FrameLoop { phase: Phase::Running(step), closing }
}

#[test]
fn new_loop_starts_a_frame_by_measuring_time() {
    let l = FrameLoop::new();
    assert_eq!(l.step(), Some(Step::MeasureTime));
    assert!(!l.closing);
    assert!(!l.failed());
}

#[test]
fn frame_does_its_steps_in_order_and_starts_over() {
    let mut l = FrameLoop::new();
    for _ in 0..3 {
        for step in ORDER {
            assert_eq!(l.step(), Some(step));
            l.advance(Outcome::Done);
        }
    }
    assert_eq!(l.step(), Some(Step::MeasureTime));
}

#[test]
fn physics_is_read_back_before_the_camera_is_derived() {
    let physics = ORDER.iter().position(|s| *s == Step::StepPhysics).unwrap();
    let read_back = ORDER.iter().position(|s| *s == Step::ReadBackPosition).unwrap();
    let camera = ORDER.iter().position(|s| *s == Step::UpdateCamera).unwrap();
    assert!(physics < read_back && read_back < camera);
    let mut l = frame_loop_at(Step::StepPhysics, false);
    l.advance(Outcome::Done);
    assert_eq!(l.step(), Some(Step::ReadBackPosition));
    l.advance(Outcome::Done);
    assert_eq!(l.step(), Some(Step::UpdateCamera));
}

#[test]
fn close_request_ends_the_loop_within_the_frame() {
    let mut l = FrameLoop::new();
    for step in ORDER {
        assert_eq!(l.step(), Some(step));
        l.advance(Outcome::Done);
    }
    assert_eq!(l.step(), Some(Step::MeasureTime));
    l.advance(Outcome::Done);
    assert_eq!(l.step(), Some(Step::PollInput));
    l.advance(Outcome::CloseRequested);
    let mut submissions = 0;
    let mut steps = 0;
    while let Some(step) = l.step() {
        if step == Step::SubmitAndPresent {
            submissions += 1;
        }
        assert_ne!(step, Step::MeasureTime);
        assert_ne!(step, Step::PollInput);
        l.advance(Outcome::Done);
        steps += 1;
        assert!(steps <= 7);
    }
    assert_eq!(steps, 7);
    assert_eq!(submissions, 1);
    assert_eq!(l.phase, Phase::Finished);
    assert!(!l.failed());
}

#[test]
fn ended_loop_does_no_more_work() {
    for phase in [Phase::Finished, Phase::Failed] {
        for closing in [false, true] {
            let mut l = FrameLoop { phase, closing };
            for outcome in [Outcome::Done, Outcome::CloseRequested, Outcome::TargetLost] {
                l.advance(outcome);
                assert_eq!(l, FrameLoop { phase, closing });
                assert_eq!(l.step(), None);
            }
        }
    }
}

#[test]
fn close_request_is_read_only_after_polling() {
    for step in ORDER {
        if step == Step::PollInput {
            continue;
        }
        let mut l = frame_loop_at(step, false);
        l.advance(Outcome::CloseRequested);
        assert!(!l.closing);
        let mut done = frame_loop_at(step, false);
        done.advance(Outcome::Done);
        assert_eq!(l, done);
    }
    let mut l = frame_loop_at(Step::PollInput, false);
    l.advance(Outcome::CloseRequested);
    assert_eq!(l, frame_loop_at(Step::StepPhysics, true));
}

#[test]
fn polling_without_close_request_keeps_the_loop_going() {
    for outcome in [Outcome::Done, Outcome::TargetLost] {
        let mut l = frame_loop_at(Step::PollInput, true);
        l.advance(outcome);
        assert_eq!(l, frame_loop_at(Step::StepPhysics, false));
    }
    let mut l = frame_loop_at(Step::SubmitAndPresent, false);
    l.advance(Outcome::Done);
    assert_eq!(l.step(), Some(Step::MeasureTime));
}

#[test]
fn lost_render_target_fails_the_frame_before_anything_is_drawn() {
    let mut l = FrameLoop::new();
    for _ in 0..5 {
        l.advance(Outcome::Done);
    }
    assert_eq!(l.step(), Some(Step::AcquireTarget));
    l.advance(Outcome::TargetLost);
    assert_eq!(l.step(), None);
    assert!(l.failed());
    assert_eq!(l.phase, Phase::Failed);
}

#[test]
fn lost_target_is_read_only_after_acquiring() {
    for step in ORDER {
        if step == Step::AcquireTarget || step == Step::PollInput {
            continue;
        }
        let mut l = frame_loop_at(step, false);
        l.advance(Outcome::TargetLost);
        let mut done = frame_loop_at(step, false);
        done.advance(Outcome::Done);
        assert_eq!(l, done);
        assert!(!l.failed());
    }
}

#[test]
fn draw_list_draws_floor_ceiling_wall_of_each_sector() {
    let sectors: Vec<SourceSector> = (1..=4u32)
        .map(|n| SourceSector { floor: flat_mesh(n), ceiling: flat_mesh(n + 10), wall: flat_mesh(n + 20) })
        .collect();
    let map = load_map(&encode(&sectors)).unwrap();
    let calls = draw_list(&map);
    assert_eq!(calls.len(), 12);
    for (k, call) in calls.iter().enumerate() {
        let n = (k / 3) as u32 + 1;
        let expected = match k % 3 {
            0 => DrawCall { sector: k / 3, surface: Surface::Floor, index_count: 3 * n },
            1 => DrawCall { sector: k / 3, surface: Surface::Ceiling, index_count: 3 * (n + 10) },
            _ => DrawCall { sector: k / 3, surface: Surface::Wall, index_count: 3 * (n + 20) },
        };
        assert_eq!(*call, expected);
    }
}

#[test]
fn draw_list_of_an_empty_map_is_empty() {
    let map = load_map(&encode(&Vec::new())).unwrap();
    assert!(draw_list(&map).is_empty());
}

#[test]
fn clock_measures_the_time_between_frames() {
    let mut clock = FrameClock::new();
    assert_eq!(clock.past, 0);
    assert_eq!(clock.tick(16_000_000), DeltaTime(16_000_000));
    assert_eq!(clock.tick(33_000_000), DeltaTime(17_000_000));
    assert_eq!(clock.tick(33_000_000), DeltaTime(0));
    assert_eq!(clock.past, 33_000_000);
    assert_eq!(clock.tick(u64::MAX), DeltaTime(u64::MAX - 33_000_000));
}

#[test]
fn clock_that_went_back_measures_no_time() {
    let mut clock = FrameClock { past: 500 };
    assert_eq!(clock.tick(200), DeltaTime(0));
    assert_eq!(clock.past, 200);
}

#[test]
fn poll_applies_its_events_in_order() {
    let mut state = GameState::new();
    let events = vec![
        WindowEvent::Key(Key::W, Action::Press),
        WindowEvent::CursorPos(100, 100),
        WindowEvent::Key(Key::Space, Action::Press),
        WindowEvent::CursorPos(130, 90),
        WindowEvent::Key(Key::W, Action::Release),
        WindowEvent::Other,
    ];
    assert_eq!(poll_input(&mut state, &events), Outcome::Done);
    let expected = GameState {
        jump: true,
        first_mouse: false,
        last_mouse_x: 130,
        last_mouse_y: 90,
        yaw: START_YAW - 30,
        pitch: -10,
        ..GameState::new()
    };
    assert_eq!(state, expected);
}

#[test]
fn poll_without_events_changes_nothing() {
    let mut state = GameState::new();
    assert_eq!(poll_input(&mut state, &Vec::new()), Outcome::Done);
    assert_eq!(state, GameState::new());
    let mut closing = GameState { close: true, ..GameState::new() };
    assert_eq!(poll_input(&mut closing, &Vec::new()), Outcome::CloseRequested);
}

#[test]
fn poll_with_a_close_event_anywhere_reports_the_request() {
    let noise = [
        WindowEvent::Key(Key::A, Action::Press),
        WindowEvent::CursorPos(5, 5),
        WindowEvent::Key(Key::Escape, Action::Release),
        WindowEvent::Other,
    ];
    for close in [WindowEvent::Close, WindowEvent::Key(Key::Escape, Action::Press)] {
        for at in 0..=noise.len() {
            let mut events = noise.to_vec();
            events.insert(at, close);
            let mut state = GameState::new();
            assert_eq!(poll_input(&mut state, &events), Outcome::CloseRequested);
            assert!(state.close);
        }
    }
}

#[test]
fn injected_close_event_stops_the_loop_after_this_frame() {
    let mut state = GameState::new();
    let mut l = FrameLoop::new();
    let mut submissions = 0;
    let mut frames = 0;
    while let Some(step) = l.step() {
        let outcome = match step {
            Step::MeasureTime => {
                frames += 1;
                Outcome::Done
            }
            Step::PollInput => {
                let events = if frames == 3 { vec![WindowEvent::Close] } else { Vec::new() };
                poll_input(&mut state, &events)
            }
            Step::SubmitAndPresent => {
                submissions += 1;
                Outcome::Done
            }
            _ => Outcome::Done,
        };
        l.advance(outcome);
        assert!(frames <= 3);
    }
    assert_eq!(frames, 3);
    assert_eq!(submissions, 3);
    assert_eq!(l.phase, Phase::Finished);
}
