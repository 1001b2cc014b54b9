//! Motion-control core of a multi-instance 3D-printer controller.
//!
//! The crate parses printer configuration files and slicer-produced G-code,
//! drives a G-code virtual machine, and runs an action queue that shapes
//! abstract moves into trapezoidal kinematic segments.  Velocities,
//! accelerations and distances are carried as fixed-point integers in
//! micro-units (one millionth of a millimetre, or of a millimetre per
//! second), so that every computation is exact and provable.

pub mod action;
pub mod api;
pub mod auth;
pub mod bgcode;
pub mod config;
pub mod files;
pub mod fixed;
pub mod gcode;
pub mod instance;
pub mod laws;
pub mod numbers;
pub mod printer;
pub mod queue;
pub mod text;
pub mod vm;

pub use fixed::MICRO;
