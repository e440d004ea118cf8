//! Routing of two live audio inputs into one output device.
//!
//! The crate holds the decisions of an audio router, each with a contract
//! that Verus proves:
//!
//! - `catalog`: how discovered devices become a sorted catalog of selectable
//!   entries, two for every device;
//! - `format`: which wire format a device is asked for, and in what order;
//! - `transport`: the bounded queue that carries samples from a capture
//!   thread to the render thread;
//! - `capture` and `render`: what is queued for a captured packet, and how
//!   listen gates and channel layouts shape each output frame;
//! - `pipeline`: the life of a pipeline thread;
//! - `controller` and `attempt`: from catalog positions to the devices to
//!   open, the course of a start, and what a running session owns.
//!
//! Samples are canonical 32-bit floating point values carried as their
//! IEEE-754 bit patterns (`u32`); the all-zero pattern is silence. The crate
//! moves samples and never does arithmetic on them: adding two samples and
//! converting to and from the integer encodings of a device is left to the
//! caller.

pub mod attempt;
pub mod backend;
pub mod capture;
pub mod catalog;
pub mod controller;
pub mod format;
pub mod gate;
pub mod message;
pub mod order;
pub mod pipeline;
pub mod render;
pub mod transport;
