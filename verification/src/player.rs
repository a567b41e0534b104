//! The bridge between the input state, the player's rigid body and the
//! camera.
//!
//! The simulation owns the player's transform. What is decided here is which
//! velocities the input asks for, in which order they are set, and how a
//! translation read back from the simulation becomes a position in map
//! units.

use vstd::prelude::*;
use crate::input::GameState;
use crate::scalar::{
    is_fourfold_of,
    is_quarter_of,
    meters_to_units,
    quadrupled,
    quartered,
    units_to_meters,
    ONE,
};

verus! {

/// The speed, in physics units a second, that a forward intent gives the
/// player along the view direction.
pub const FORWARD_SPEED: u32 = 20;

/// The speed, in physics units a second, that a jump intent gives the
/// player straight up.
pub const JUMP_SPEED: u32 = 20;

/// The height of the eye above the player's collision origin, in map units.
pub const EYE_HEIGHT: u32 = 20;

/// The position at which the player is spawned, in map units:
/// (1077, 460, -3600).
pub const SPAWN_POSITION: [u32; 3] = [0x4486_a000, 0x43e6_0000, 0xc561_0000];

/// Where the player's body is put into the simulation, in map units:
/// (1077, 20, -3600).
pub const BODY_SPAWN: [u32; 3] = [0x4486_a000, 0x41a0_0000, 0xc561_0000];

/// The vertical field of view, in degrees.
pub const FIELD_OF_VIEW_DEGREES: u32 = 90;

/// The distance of the near plane, 0.1, as a binary32 bit pattern.
pub const NEAR_PLANE: u32 = 0x3dcc_cccd;

/// The distance of the far plane, 2000, as a binary32 bit pattern.
pub const FAR_PLANE: u32 = 0x44fa_0000;

/// One assignment to the linear velocity of the player's body. Each
/// replaces the whole velocity; none is added to what was there.
#[derive(Clone, Copy, Debug, PartialEq, Eq)]
pub enum VelocityOrder {
    /// The x and z of the view direction times [`FORWARD_SPEED`], and no
    /// vertical speed.
    Forward,
    /// Straight up at [`JUMP_SPEED`], and no horizontal speed.
    Jump,
}

/// The velocity assignments that the intents in `state` ask for, in the
/// order in which they are made: forward before jump.
pub open spec fn orders_for(state: GameState) -> Seq<VelocityOrder> {
    let forward = if state.up {
        seq![VelocityOrder::Forward]
    } else {
        Seq::<VelocityOrder>::empty()
    };
    let jump = if state.jump {
        seq![VelocityOrder::Jump]
    } else {
        Seq::<VelocityOrder>::empty()
    };
    forward + jump
}

/// The assignment whose velocity the body is left with: the jump where
/// there is one, else the forward move, else none.
pub open spec fn standing_order(state: GameState) -> Option<VelocityOrder> {
    if state.jump {
        Some(VelocityOrder::Jump)
    } else if state.up {
        Some(VelocityOrder::Forward)
    } else {
        None
    }
}

/// Where several intents are active, the assignment made last is the one
/// that stands.
pub proof fn lemma_last_order_stands(state: GameState)
    ensures
        orders_for(state).len() == 0 <==> standing_order(state) is None,
        orders_for(state).len() > 0 ==> standing_order(state) == Some(orders_for(state).last()),
        state.up && state.jump ==> orders_for(state) == seq![
            VelocityOrder::Forward,
            VelocityOrder::Jump,
        ],
{
}

/// The translation that the player's body is given when it is put into the
/// simulation: [`BODY_SPAWN`] in physics units.
pub fn body_spawn_translation() -> (translation: [u32; 3])
    ensures
        forall|axis: int|
            0 <= axis < 3 ==> (#[trigger] translation[axis]) == quartered(BODY_SPAWN[axis]),
        forall|axis: int|
            0 <= axis < 3 ==> is_quarter_of(#[trigger] translation[axis], BODY_SPAWN[axis]),
{
    [units_to_meters(BODY_SPAWN[0]), units_to_meters(BODY_SPAWN[1]), units_to_meters(BODY_SPAWN[2])]
}

/// The player's position in map units, as binary32 bit patterns. It is a
/// copy of what the simulation holds, refreshed in every frame.
#[derive(Clone, Copy, Debug, PartialEq, Eq)]
pub struct Position {
    pub coords: [u32; 3],
}

impl Position {
    /// The position of a newly spawned player.
    pub fn spawn() -> (position: Position)
        ensures
            position.coords == SPAWN_POSITION,
    {
        Position { coords: SPAWN_POSITION }
    }
}

/// The camera on the player: the direction of view and the up vector, as
/// binary32 bit patterns.
#[derive(Clone, Copy, Debug, PartialEq, Eq)]
pub struct Camera {
    pub direction: [u32; 3],
    pub up: [u32; 3],
}

impl Camera {
    /// The camera of a newly spawned player: it looks along the z axis, and
    /// up is the y axis.
    pub fn new() -> (camera: Camera)
        ensures
            camera.direction == [0u32, 0u32, ONE],
            camera.up == [0u32, ONE, 0u32],
    {
        Camera { direction: [0, 0, ONE], up: [0, ONE, 0] }
    }
}

/// Refreshes the player's position from the translation of the player's
/// body, as read back after the simulation's step: each coordinate is
/// brought from physics units to map units.
pub fn update_player_physics(position: &mut Position, translation: [u32; 3])
    ensures
        forall|axis: int|
            0 <= axis < 3 ==> (#[trigger] final(position).coords[axis]) == quadrupled(
                translation[axis],
            ),
        forall|axis: int|
            0 <= axis < 3 ==> is_fourfold_of(
                #[trigger] final(position).coords[axis],
                translation[axis],
            ),
{
    position.coords = [
        meters_to_units(translation[0]),
        meters_to_units(translation[1]),
        meters_to_units(translation[2]),
    ];
}

/// Points the camera along `direction`, the view direction derived from
/// this frame's yaw and pitch, and lists the velocity assignments that the
/// intents ask for, in the order in which to make them. The up vector stays
/// as it is.
pub fn update_camera(camera: &mut Camera, game_state: &GameState, direction: [u32; 3]) -> (orders:
    Vec<VelocityOrder>)
    ensures
        final(camera).direction == direction,
        final(camera).up == old(camera).up,
        orders@ == orders_for(*game_state),
{
    camera.direction = direction;
    let mut orders: Vec<VelocityOrder> = Vec::new();
    if game_state.up {
        orders.push(VelocityOrder::Forward);
    }
    if game_state.jump {
        orders.push(VelocityOrder::Jump);
    }
    orders
}

} // verus!
