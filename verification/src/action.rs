//! Motion and thermal intents, emitted printer instructions, and the shared
//! kinematic state.
//!
//! All quantities are fixed-point integers in micro-units (see
//! [`crate::fixed::MICRO`]): a coordinate of `1_000_000` is one millimetre,
//! a velocity of `1_000_000` is one millimetre per second.  A field that the
//! G-code left unspecified is `None`.

use vstd::prelude::*;

verus! {

/// Smallest admitted target velocity: a tenth of a millimetre per second.
pub const MIN_VELOCITY: i64 = 100_000;

/// Machine ceiling for velocities, accelerations and single-move
/// displacements.  Values beyond it are clamped when a move is accepted.
pub const MAX_RATE: i64 = 1_000_000_000_000;

/// A move intent as handed over by the G-code virtual machine.  Components
/// are displacements (relative mode) or targets (absolute mode); `None`
/// means the command did not mention the axis.
#[derive(Debug, Clone, Copy, PartialEq, Eq)]
pub struct Move {
    /// Start velocity; zero when unspecified.
    pub start_velocity: Option<i64>,
    /// Target velocity; the current maximum when unspecified.
    pub target_velocity: Option<i64>,
    pub x: Option<i64>,
    pub y: Option<i64>,
    pub z: Option<i64>,
    pub e: Option<i64>,
}

/// A move that the queue has accepted: relative, fully concrete, clamped to
/// the machine limits.
#[derive(Debug, Clone, Copy, PartialEq, Eq)]
pub struct PlannedMove {
    pub start_velocity: i64,
    pub target_velocity: i64,
    pub x: i64,
    pub y: i64,
    pub z: i64,
    pub e: i64,
}

impl PlannedMove {
    /// The accepted move respects the machine limits.
    pub open spec fn wf(self) -> bool {
        &&& -MAX_RATE <= self.x <= MAX_RATE
        &&& -MAX_RATE <= self.y <= MAX_RATE
        &&& -MAX_RATE <= self.z <= MAX_RATE
        &&& -MAX_RATE <= self.e <= MAX_RATE
        &&& 0 <= self.start_velocity <= MAX_RATE
        &&& MIN_VELOCITY <= self.target_velocity <= MAX_RATE
    }
}

/// A concrete kinematic segment sent to the physical printer.
#[derive(Debug, Clone, Copy, PartialEq, Eq)]
pub struct KinematicMove {
    /// Extrusion velocity when the spatial distance is zero.
    pub start_velocity: i64,
    pub acceleration: i64,
    pub x: i64,
    pub y: i64,
    pub z: i64,
    pub e: i64,
}

/// An extrusion-only move: no spatial displacement, pure flow.
#[derive(Debug, Clone, Copy, PartialEq, Eq)]
pub struct ExtrusionMove {
    /// Flow rate in micro-millimetres per second.
    pub flow: i64,
    /// Filament length to extrude.
    pub distance: i64,
}

/// An abstract intent pushed into the action queue.
#[derive(Debug, Clone, Copy, PartialEq, Eq)]
pub enum Action {
    Move(Move),
    /// Sets the maximum velocity for subsequent moves.
    SetVelocity(i64),
    SetBedTemp(i64),
    SetBedTempWait(i64),
    SetExtruderTemp { index: usize, temp: i64 },
    SetExtruderTempWait { index: usize, temp: i64 },
}

/// A concrete instruction emitted towards the physical printer.
#[derive(Debug, Clone, Copy, PartialEq, Eq)]
pub enum PrinterAction {
    KinematicMove(KinematicMove),
    ExtrusionMove(ExtrusionMove),
    SetBedTemp(i64),
    SetBedTempWait(i64),
    SetExtruderTemp { index: usize, temp: i64 },
    SetExtruderTempWait { index: usize, temp: i64 },
}

/// Shared kinematic state of one printer instance.
///
/// Positions start out unknown (`None`) until a homing reference sets them;
/// the extruder position starts at zero.
#[derive(Debug, Clone)]
pub struct ActionState {
    /// Maximum velocity in micro-millimetres per second.
    pub max_velocity: i64,
    /// Maximum acceleration.
    pub max_accel: i64,
    /// Largest exit velocity through a right-angle corner.
    pub square_corner_velocity: i64,
    /// Minimum cruise ratio, kept for configuration; not consulted by the
    /// current junction policy.
    pub minimum_cruise_ratio: i64,
    /// Interpret X/Y/Z as absolute targets.
    pub absolute_position: bool,
    /// Interpret E as an absolute target.
    pub absolute_extrusion: bool,
    /// Line number of the currently running G-code file.
    pub gcode_line: u64,
    /// A file-based print job is running.
    pub gcode_running: bool,
    /// Objects excluded from printing.
    pub exclude_objects: Vec<String>,
    pub x_origin: i64,
    pub y_origin: i64,
    pub z_origin: i64,
    pub x_position: Option<i64>,
    pub y_position: Option<i64>,
    pub z_position: Option<i64>,
    pub e_position: i64,
}

/// Mathematical image of [`ActionState`].
#[verifier::ext_equal]
pub struct StateModel {
    pub max_velocity: int,
    pub max_accel: int,
    pub square_corner_velocity: int,
    pub minimum_cruise_ratio: int,
    pub absolute_position: bool,
    pub absolute_extrusion: bool,
    pub gcode_line: int,
    pub gcode_running: bool,
    pub exclude_objects: Seq<Seq<char>>,
    pub x_origin: int,
    pub y_origin: int,
    pub z_origin: int,
    pub x_position: Option<int>,
    pub y_position: Option<int>,
    pub z_position: Option<int>,
    pub e_position: int,
}

impl StateModel {
    /// The state respects the machine limits.
    pub open spec fn wf(self) -> bool {
        &&& MIN_VELOCITY <= self.max_velocity <= MAX_RATE
        &&& 0 <= self.max_accel <= MAX_RATE
        &&& 0 <= self.square_corner_velocity <= MAX_RATE
    }
}

impl View for ActionState {
    type V = StateModel;

    open spec fn view(&self) -> StateModel {
        StateModel {
            max_velocity: self.max_velocity as int,
            max_accel: self.max_accel as int,
            square_corner_velocity: self.square_corner_velocity as int,
            minimum_cruise_ratio: self.minimum_cruise_ratio as int,
            absolute_position: self.absolute_position,
            absolute_extrusion: self.absolute_extrusion,
            gcode_line: self.gcode_line as int,
            gcode_running: self.gcode_running,
            exclude_objects: self.exclude_objects@.map_values(|s: String| s@),
            x_origin: self.x_origin as int,
            y_origin: self.y_origin as int,
            z_origin: self.z_origin as int,
            x_position: match self.x_position {
                Some(p) => Some(p as int),
                None => None,
            },
            y_position: match self.y_position {
                Some(p) => Some(p as int),
                None => None,
            },
            z_position: match self.z_position {
                Some(p) => Some(p as int),
                None => None,
            },
            e_position: self.e_position as int,
        }
    }
}

impl ActionState {
    /// Fresh state with the stock limits: 100 mm/s, 3000 mm/s^2, a corner
    /// velocity of 5 mm/s and a minimum cruise ratio of one half.
    pub fn new() -> (s: ActionState)
        ensures
            s@.max_velocity == 100_000_000,
            s@.max_accel == 3_000_000_000,
            s@.square_corner_velocity == 5_000_000,
            s@.minimum_cruise_ratio == 500_000,
            !s@.absolute_position,
            !s@.absolute_extrusion,
            s@.gcode_line == 0,
            !s@.gcode_running,
            s@.exclude_objects == Seq::<Seq<char>>::empty(),
            s@.x_origin == 0 && s@.y_origin == 0 && s@.z_origin == 0,
            s@.x_position is None,
            s@.y_position is None,
            s@.z_position is None,
            s@.e_position == 0,
            s@.wf(),
    {
        let s = ActionState {
            max_velocity: 100_000_000,
            max_accel: 3_000_000_000,
            square_corner_velocity: 5_000_000,
            minimum_cruise_ratio: 500_000,
            absolute_position: false,
            absolute_extrusion: false,
            gcode_line: 0,
            gcode_running: false,
            exclude_objects: Vec::new(),
            x_origin: 0,
            y_origin: 0,
            z_origin: 0,
            x_position: None,
            y_position: None,
            z_position: None,
            e_position: 0,
        };
        proof {
            assert(s@.exclude_objects =~= Seq::<Seq<char>>::empty());
        }
        s
    }
}

} // verus!
