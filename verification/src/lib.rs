//! Backend core for a desktop application that bridges a hardware MIDI
//! input device and a supervised local server process to a single consumer.
//!
//! The crate has two independent components:
//!
//! - [`device`]: the Device Bridge. It manages the single mutable slot that
//!   holds the active hardware connection, and forwards every received
//!   hardware event, payload unmodified and in arrival order, to an event
//!   sink.
//! - [`supervisor`]: the Process Supervisor. It tracks the lifecycle of the
//!   mandatory background server process and turns its output stream into
//!   diagnostic lines, treating termination as fatal.
//!
//! [`startup`] ties the two together: the application context exists only
//! when the server process could be spawned.

pub mod device;
pub mod startup;
pub mod supervisor;
