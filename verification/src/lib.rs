//! Reminisce is a lightweight library for detecting and reading from
//! joysticks at a low level, presenting heterogeneous native sources
//! through one uniform, verified event model.
//!
//! The crate is organised leaf-first:
//! - [`events`] holds the shared event vocabulary and the state tables
//!   that events act upon;
//! - [`snapshot`] holds full-state snapshots and the diff engine that
//!   synthesises change events from consecutive snapshots;
//! - [`joystick`] holds the device-handle capability and the two handle
//!   flavours (push-model and snapshot-model);
//! - [`stateful`] holds the queryable current-state cache;
//! - [`mapper`] holds the axis/button remapping layer;
//! - [`registry`] holds the backend registry that multiplexes devices;
//! - [`decode`] holds the checked decoders for native records and the
//!   error taxonomy.
//!
//! Reading from real devices is left to a thin unverified shell: it
//! enumerates device nodes, performs the blocking-free native reads, and
//! feeds the decoded updates into the handles and the registry kept here.

pub mod events;
pub mod snapshot;
pub mod joystick;
pub mod stateful;
pub mod mapper;
pub mod registry;
pub mod decode;

pub use events::{Axis, Button, Event, JoystickIndex, MAX_AXIS_VALUE, MIN_AXIS_VALUE};
pub use joystick::Joystick;
pub use mapper::JoystickMapper;
pub use registry::Native;
pub use snapshot::Snapshot;
pub use stateful::StatefulJoystick;
