//! The order of work in a frame, and when the frame loop ends.
//!
//! The program that owns the window, the device and the simulation runs the
//! loop. It asks [`FrameLoop::step`] what to do, does it, and reports how it
//! went with [`FrameLoop::advance`]. What is drawn in a frame is listed by
//! [`draw_list`].

use vstd::prelude::*;
use crate::input::{
    after_event,
    handle_window_event,
    lemma_close_is_kept,
    Action,
    GameState,
    Key,
    WindowEvent,
};
use crate::map::{SectorMap, SectorView};

verus! {

/// One piece of work in a frame. A frame does them in the order in which
/// they stand here.
#[derive(Clone, Copy, Debug, PartialEq, Eq)]
pub enum Step {
    /// Measure the time since the last frame.
    MeasureTime,
    /// Poll the window and apply each event to the input state.
    PollInput,
    /// Step the simulation by its fixed time step.
    StepPhysics,
    /// Read the player's position back from the simulation.
    ReadBackPosition,
    /// Derive the view direction and apply movement to the player's body.
    UpdateCamera,
    /// Acquire the render target from the swapchain.
    AcquireTarget,
    /// Recompute the view matrix and upload the uniform block.
    UploadUniforms,
    /// Record the render pass.
    Draw,
    /// Submit the commands and present the frame.
    SubmitAndPresent,
}

/// How a step went.
#[derive(Clone, Copy, Debug, PartialEq, Eq)]
pub enum Outcome {
    /// The step was done.
    Done,
    /// The step was done, and the input state now holds a close request.
    /// Read after [`Step::PollInput`]; the same as `Done` after any other.
    CloseRequested,
    /// The render target could not be acquired. Read after
    /// [`Step::AcquireTarget`]; the same as `Done` after any other.
    TargetLost,
}

/// Where the loop stands.
#[derive(Clone, Copy, Debug, PartialEq, Eq)]
pub enum Phase {
    /// The loop is about to do this step.
    Running(Step),
    /// The loop ended after a close request.
    Finished,
    /// The loop ended because a frame had no render target.
    Failed,
}

/// The state of the frame loop.
#[derive(Clone, Copy, Debug, PartialEq, Eq)]
pub struct FrameLoop {
    /// Where the loop stands.
    pub phase: Phase,
    /// Whether a close request was seen when this frame polled its input.
    pub closing: bool,
}

/// The step that follows `step` within a frame; after the last, the first of
/// the next frame.
pub open spec fn following(step: Step) -> Step {
    match step {
        Step::MeasureTime => Step::PollInput,
        Step::PollInput => Step::StepPhysics,
        Step::StepPhysics => Step::ReadBackPosition,
        Step::ReadBackPosition => Step::UpdateCamera,
        Step::UpdateCamera => Step::AcquireTarget,
        Step::AcquireTarget => Step::UploadUniforms,
        Step::UploadUniforms => Step::Draw,
        Step::Draw => Step::SubmitAndPresent,
        Step::SubmitAndPresent => Step::MeasureTime,
    }
}

/// The number of steps of the frame that are still to do when the loop is
/// about to do `step`, that step included.
pub open spec fn steps_left(step: Step) -> nat {
    match step {
        Step::MeasureTime => 9,
        Step::PollInput => 8,
        Step::StepPhysics => 7,
        Step::ReadBackPosition => 6,
        Step::UpdateCamera => 5,
        Step::AcquireTarget => 4,
        Step::UploadUniforms => 3,
        Step::Draw => 2,
        Step::SubmitAndPresent => 1,
    }
}

/// The state after the step that `state` was about to do went as `outcome`
/// says.
///
/// A close request is noted when the input has been polled, and the frame
/// goes on; the loop ends when that frame has been presented. A frame
/// without a render target ends the loop at once. A loop that has ended
/// stays as it is.
pub open spec fn advanced(state: FrameLoop, outcome: Outcome) -> FrameLoop {
    match state.phase {
        Phase::Finished => state,
        Phase::Failed => state,
        Phase::Running(Step::PollInput) => FrameLoop {
            phase: Phase::Running(Step::StepPhysics),
            closing: outcome == Outcome::CloseRequested,
        },
        Phase::Running(Step::AcquireTarget) => if outcome == Outcome::TargetLost {
            FrameLoop { phase: Phase::Failed, ..state }
        } else {
            FrameLoop { phase: Phase::Running(Step::UploadUniforms), ..state }
        },
        Phase::Running(Step::SubmitAndPresent) => if state.closing {
            FrameLoop { phase: Phase::Finished, ..state }
        } else {
            FrameLoop { phase: Phase::Running(Step::MeasureTime), ..state }
        },
        Phase::Running(step) => FrameLoop { phase: Phase::Running(following(step)), ..state },
    }
}

/// The state after a run of steps that went as `outcomes` says, one after
/// the other.
pub open spec fn run(state: FrameLoop, outcomes: Seq<Outcome>) -> FrameLoop
    decreases outcomes.len(),
{
    if outcomes.len() == 0 {
        state
    } else {
        run(advanced(state, outcomes[0]), outcomes.drop_first())
    }
}

/// The number of frames submitted in the course of such a run.
pub open spec fn submissions(state: FrameLoop, outcomes: Seq<Outcome>) -> nat
    decreases outcomes.len(),
{
    if outcomes.len() == 0 {
        0
    } else {
        let now: nat = if state.phase == Phase::Running(Step::SubmitAndPresent) {
            1
        } else {
            0
        };
        now + submissions(advanced(state, outcomes[0]), outcomes.drop_first())
    }
}

impl FrameLoop {
    /// A loop that is about to start its first frame.
    pub fn new() -> (state: FrameLoop)
        ensures
            state == (FrameLoop { phase: Phase::Running(Step::MeasureTime), closing: false }),
    {
        FrameLoop { phase: Phase::Running(Step::MeasureTime), closing: false }
    }

    /// The step to do now, or `None` once the loop has ended.
    pub fn step(&self) -> (step: Option<Step>)
        ensures
            step == match self.phase {
                Phase::Running(step) => Some(step),
                Phase::Finished => None,
                Phase::Failed => None,
            },
    {
        match self.phase {
            Phase::Running(step) => Some(step),
            Phase::Finished => None,
            Phase::Failed => None,
        }
    }

    /// Whether the loop ended because a frame had no render target.
    pub fn failed(&self) -> (failed: bool)
        ensures
            failed == (self.phase == Phase::Failed),
    {
        match self.phase {
            Phase::Failed => true,
            _ => false,
        }
    }

    /// Takes note of how the current step went, and moves on.
    pub fn advance(&mut self, outcome: Outcome)
        ensures
            *final(self) == advanced(*old(self), outcome),
    {
        match self.phase {
            Phase::Finished => {},
            Phase::Failed => {},
            Phase::Running(step) => {
                match step {
                    Step::MeasureTime => {
                        self.phase = Phase::Running(Step::PollInput);
                    },
                    Step::PollInput => {
                        self.closing = match outcome {
                            Outcome::CloseRequested => true,
                            _ => false,
                        };
                        self.phase = Phase::Running(Step::StepPhysics);
                    },
                    Step::StepPhysics => {
                        self.phase = Phase::Running(Step::ReadBackPosition);
                    },
                    Step::ReadBackPosition => {
                        self.phase = Phase::Running(Step::UpdateCamera);
                    },
                    Step::UpdateCamera => {
                        self.phase = Phase::Running(Step::AcquireTarget);
                    },
                    Step::AcquireTarget => {
                        self.phase = match outcome {
                            Outcome::TargetLost => Phase::Failed,
                            _ => Phase::Running(Step::UploadUniforms),
                        };
                    },
                    Step::UploadUniforms => {
                        self.phase = Phase::Running(Step::Draw);
                    },
                    Step::Draw => {
                        self.phase = Phase::Running(Step::SubmitAndPresent);
                    },
                    Step::SubmitAndPresent => {
                        self.phase = if self.closing {
                            Phase::Finished
                        } else {
                            Phase::Running(Step::MeasureTime)
                        };
                    },
                }
            },
        }
    }
}

/// A loop that has ended does no more work: whatever is reported to it, it
/// stays ended and submits nothing.
pub proof fn lemma_ended_stays_ended(state: FrameLoop, outcomes: Seq<Outcome>)
    requires
        state.phase is Finished || state.phase is Failed,
    ensures
        run(state, outcomes) == state,
        submissions(state, outcomes) == 0,
    decreases outcomes.len(),
{
    if outcomes.len() > 0 {
        lemma_ended_stays_ended(advanced(state, outcomes[0]), outcomes.drop_first());
    }
}

/// In a frame that saw a close request, whatever the remaining steps
/// report: the loop submits at most this one frame, and it has ended once
/// as many steps were done as the frame had left.
pub proof fn lemma_closing_frame_is_last(state: FrameLoop, outcomes: Seq<Outcome>)
    requires
        state.closing,
        state.phase is Running,
        state.phase != Phase::Running(Step::MeasureTime),
        state.phase != Phase::Running(Step::PollInput),
    ensures
        submissions(state, outcomes) <= 1,
        outcomes.len() >= steps_left(state.phase->Running_0) ==> {
            ||| run(state, outcomes).phase is Finished
            ||| run(state, outcomes).phase is Failed
        },
    decreases outcomes.len(),
{
    if outcomes.len() > 0 {
        let next = advanced(state, outcomes[0]);
        if next.phase is Running {
            lemma_closing_frame_is_last(next, outcomes.drop_first());
        } else {
            lemma_ended_stays_ended(next, outcomes.drop_first());
        }
    }
}

/// A close request that arrives while a frame polls its input ends the loop
/// within that frame: the frame's remaining seven steps are done, no further
/// frame is started, and nothing is submitted after this frame.
pub proof fn lemma_close_request_ends_loop(state: FrameLoop, outcomes: Seq<Outcome>)
    requires
        state.phase == Phase::Running(Step::PollInput),
    ensures
        submissions(advanced(state, Outcome::CloseRequested), outcomes) <= 1,
        outcomes.len() >= 7 ==> {
            let end = run(advanced(state, Outcome::CloseRequested), outcomes);
            end.phase is Finished || end.phase is Failed
        },
{
    lemma_closing_frame_is_last(advanced(state, Outcome::CloseRequested), outcomes);
}

/// Without a close request and with a render target in every frame, the
/// loop goes on: after the nine steps of a frame it is about to start the
/// next.
pub proof fn lemma_frame_without_close_repeats(state: FrameLoop)
    requires
        state.phase == Phase::Running(Step::MeasureTime),
    ensures
        run(state, Seq::new(9, |k: int| Outcome::Done)).phase == Phase::Running(Step::MeasureTime),
        submissions(state, Seq::new(9, |k: int| Outcome::Done)) == 1,
{
    let all = Seq::new(9, |k: int| Outcome::Done);
    lemma_done_steps(state, all, 9);
}

/// Doing `count` steps of a frame that saw no fault and, from polling on, no
/// close request, leaves the loop `count` steps further in its frame.
proof fn lemma_done_steps(state: FrameLoop, outcomes: Seq<Outcome>, count: nat)
    requires
        state.phase is Running,
        count == outcomes.len(),
        count <= steps_left(state.phase->Running_0),
        forall|k: int| 0 <= k < outcomes.len() ==> outcomes[k] == Outcome::Done,
        steps_left(state.phase->Running_0) <= 7 ==> !state.closing,
    ensures
        count < steps_left(state.phase->Running_0) ==> run(state, outcomes).phase is Running
            && steps_left(run(state, outcomes).phase->Running_0) == steps_left(
            state.phase->Running_0,
        ) - count && submissions(state, outcomes) == 0,
        count == steps_left(state.phase->Running_0) ==> run(state, outcomes).phase
            == Phase::Running(Step::MeasureTime) && submissions(state, outcomes) == 1,
    decreases outcomes.len(),
{
    if outcomes.len() > 0 {
        let next = advanced(state, outcomes[0]);
        let rest = outcomes.drop_first();
        if count < steps_left(state.phase->Running_0) {
            lemma_done_steps(next, rest, (count - 1) as nat);
        } else if count > 1 {
            lemma_done_steps(next, rest, (count - 1) as nat);
        } else {
            assert(rest.len() == 0);
            assert(run(next, rest) == next);
            assert(submissions(next, rest) == 0);
        }
    }
}

/// The input state after the events of one poll, applied in the order in
/// which they came.
pub open spec fn after_events(state: GameState, events: Seq<WindowEvent>) -> GameState
    decreases events.len(),
{
    if events.len() == 0 {
        state
    } else {
        after_event(after_events(state, events.drop_last()), events.last())
    }
}

/// Whether `event` asks for the game to close: a press of escape, or the
/// window's close signal.
pub open spec fn requests_close(event: WindowEvent) -> bool {
    event == WindowEvent::Key(Key::Escape, Action::Press) || event == WindowEvent::Close
}

/// Applies the events of one poll to the input state, in order, and reports
/// how the step went: with a close request exactly if the state holds one
/// afterwards.
pub fn poll_input(game_state: &mut GameState, events: &Vec<WindowEvent>) -> (outcome: Outcome)
    ensures
        *final(game_state) == after_events(*old(game_state), events@),
        outcome == if final(game_state).close {
            Outcome::CloseRequested
        } else {
            Outcome::Done
        },
{
    let ghost start = *game_state;
    let mut k: usize = 0;
    while k < events.len()
        invariant
            k <= events@.len(),
            *game_state == after_events(start, events@.take(k as int)),
        decreases events@.len() - k,
    {
        handle_window_event(game_state, events[k]);
        k += 1;
        proof {
            let run = events@.take(k as int);
            assert(run.drop_last() == events@.take(k - 1));
            assert(run.last() == events@[k - 1]);
        }
    }
    assert(events@.take(k as int) == events@);
    if game_state.close {
        Outcome::CloseRequested
    } else {
        Outcome::Done
    }
}

/// A poll that holds an event asking for the close leaves the close
/// requested, whatever else it holds.
pub proof fn lemma_close_event_is_seen(state: GameState, events: Seq<WindowEvent>, k: int)
    requires
        0 <= k < events.len(),
        requests_close(events[k]),
    ensures
        after_events(state, events).close,
    decreases events.len(),
{
    let before = after_events(state, events.drop_last());
    if k == events.len() - 1 {
        assert(after_event(before, events[k]).close);
    } else {
        lemma_close_event_is_seen(state, events.drop_last(), k);
        lemma_close_is_kept(before, events.last());
    }
}

/// An event asking for the close, injected into the poll of a frame, ends
/// the loop within that frame: whatever the frame's remaining seven steps
/// report, the loop has ended once they are done, it starts no further
/// frame, and it submits nothing after this frame.
pub proof fn lemma_injected_close_ends_loop(
    frame_loop: FrameLoop,
    game_state: GameState,
    events: Seq<WindowEvent>,
    k: int,
    outcomes: Seq<Outcome>,
)
    requires
        frame_loop.phase == Phase::Running(Step::PollInput),
        0 <= k < events.len(),
        requests_close(events[k]),
    ensures
        ({
            let polled = if after_events(game_state, events).close {
                Outcome::CloseRequested
            } else {
                Outcome::Done
            };
            &&& polled == Outcome::CloseRequested
            &&& submissions(advanced(frame_loop, polled), outcomes) <= 1
            &&& outcomes.len() >= 7 ==> {
                ||| run(advanced(frame_loop, polled), outcomes).phase is Finished
                ||| run(advanced(frame_loop, polled), outcomes).phase is Failed
            }
        }),
{
    lemma_close_event_is_seen(game_state, events, k);
    lemma_close_request_ends_loop(frame_loop, outcomes);
}

/// The time between two frames, in nanoseconds.
#[derive(Clone, Copy, Debug, PartialEq, Eq)]
pub struct DeltaTime(pub u64);

/// Keeps the time of the last frame. Times are nanoseconds on a clock that
/// does not go back.
#[derive(Clone, Copy, Debug, PartialEq, Eq)]
pub struct FrameClock {
    pub past: u64,
}

impl FrameClock {
    /// A clock whose last frame was at time zero.
    pub fn new() -> (clock: FrameClock)
        ensures
            clock.past == 0,
    {
        FrameClock { past: 0 }
    }

    /// Takes `now` as the time of this frame, and hands back the time since
    /// the last one. Should the clock have gone back, no time has passed.
    pub fn tick(&mut self, now: u64) -> (delta: DeltaTime)
        ensures
            final(self).past == now,
            delta.0 == if now >= old(self).past {
                now - old(self).past
            } else {
                0
            },
    {
        let delta: u64 = if now >= self.past { now - self.past } else { 0 };
        self.past = now;
        DeltaTime(delta)
    }
}

/// Which of a sector's three render meshes a draw call draws.
#[derive(Clone, Copy, Debug, PartialEq, Eq)]
pub enum Surface {
    Floor,
    Ceiling,
    Wall,
}

/// One indexed draw: a mesh of a sector, and the number of indices to draw
/// from the start of its index buffer.
#[derive(Clone, Copy, Debug, PartialEq, Eq)]
pub struct DrawCall {
    pub sector: usize,
    pub surface: Surface,
    pub index_count: u32,
}

/// The surface that is drawn first, second and third in a sector.
pub open spec fn surface_in_order(k: int) -> Surface {
    if k == 0 {
        Surface::Floor
    } else if k == 1 {
        Surface::Ceiling
    } else {
        Surface::Wall
    }
}

/// The number of indices of one of a sector's render meshes.
pub open spec fn index_count_of(sector: SectorView, surface: Surface) -> nat {
    match surface {
        Surface::Floor => sector.floor_mesh.indices.len(),
        Surface::Ceiling => sector.ceiling_mesh.indices.len(),
        Surface::Wall => sector.wall_mesh.indices.len(),
    }
}

/// The draws of one render pass: for every sector in map order its floor,
/// its ceiling and its wall, each with all its indices.
pub open spec fn draw_calls(map: Seq<SectorView>) -> Seq<DrawCall> {
    Seq::new(
        3 * map.len(),
        |k: int|
            DrawCall {
                sector: (k / 3) as usize,
                surface: surface_in_order(k % 3),
                index_count: index_count_of(map[k / 3], surface_in_order(k % 3)) as u32,
            },
    )
}

/// Lists the draws of one render pass over `map`.
pub fn draw_list(map: &SectorMap) -> (calls: Vec<DrawCall>)
    ensures
        calls@ == draw_calls(map@),
        calls@.len() == 3 * map@.len(),
        forall|k: int|
            0 <= k < calls@.len() ==> (#[trigger] calls@[k]).index_count == index_count_of(
                map@[k / 3],
                surface_in_order(k % 3),
            ),
{
    let mut calls: Vec<DrawCall> = Vec::new();
    let count: usize = map.len();
    let mut k: usize = 0;
    while k < count
        invariant
            k <= count,
            count == map@.len(),
            calls@.len() == 3 * k,
            calls@ == draw_calls(map@).take(3 * k),
            forall|i: int|
                0 <= i < calls@.len() ==> (#[trigger] calls@[i]).index_count == index_count_of(
                    map@[i / 3],
                    surface_in_order(i % 3),
                ),
        decreases count - k,
    {
        let sector = map.sector(k);
        let floor = sector.floor_mesh().indices.len();
        let ceiling = sector.ceiling_mesh().indices.len();
        let wall = sector.wall_mesh().indices.len();
        let ghost before = calls@;
        calls.push(DrawCall { sector: k, surface: Surface::Floor, index_count: floor as u32 });
        calls.push(DrawCall { sector: k, surface: Surface::Ceiling, index_count: ceiling as u32 });
        calls.push(DrawCall { sector: k, surface: Surface::Wall, index_count: wall as u32 });
        proof {
            let all = draw_calls(map@);
            assert(all[3 * k] == calls@[3 * k]);
            assert(all[3 * k + 1] == calls@[3 * k + 1]);
            assert(all[3 * k + 2] == calls@[3 * k + 2]);
            assert(calls@ == all.take(3 * (k + 1)));
        }
        k += 1;
    }
    assert(calls@ == draw_calls(map@));
    calls
}

} // verus!
