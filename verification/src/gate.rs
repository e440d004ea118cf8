//! Listen gates: one shared boolean per input, written by the control side and
//! read by the render side for every output frame.
//!
//! What position a gate is in is not known to the verifier: the boolean is
//! shared, and another thread may move it between any two steps. What is read
//! from a gate is handed on as a plain value, and the functions that take it
//! say what they make of either position.

use std::sync::atomic::AtomicBool;
use std::sync::atomic::Ordering;
use std::sync::Arc;
use vstd::prelude::*;

verus! {

/// Whether an input is heard. Copies of a gate made with `share` move together.
pub struct Gate {
    flag: Arc<AtomicBool>,
}

/// The position that a toggle moves a gate to from the position `was`.
pub fn toggled(was: bool) -> (now: bool)
    ensures
        now == !was,
{
    !was
}

impl Gate {
    /// The shared boolean that this gate is a handle on.
    pub closed spec fn flag(&self) -> Arc<AtomicBool> {
        self.flag
    }

    /// A new gate in the given position.
    pub fn new(open: bool) -> Gate {
        Gate { flag: Arc::new(AtomicBool::new(open)) }
    }

    /// A gate over a boolean that the control surface already holds.
    pub fn from_shared(flag: Arc<AtomicBool>) -> (gate: Gate)
        ensures
            gate.flag() == flag,
    {
        Gate { flag }
    }

    /// Another handle on the same gate.
    pub fn share(&self) -> (other: Gate)
        ensures
            other.flag() == self.flag(),
    {
        Gate { flag: self.flag.clone() }
    }

    /// Whether this gate is open at this moment. Another thread may move it
    /// between two reads.
    pub fn is_open(&self) -> bool {
        self.flag.load(Ordering::Relaxed)
    }

    /// Opens or closes this gate.
    pub fn set(&self, open: bool) {
        self.flag.store(open, Ordering::Relaxed);
    }

    /// Moves this gate to the other position and returns the new one: the
    /// position `toggled` of what was read.
    pub fn toggle(&self) -> bool {
        let now = toggled(self.is_open());
        self.set(now);
        now
    }
}

} // verus!
