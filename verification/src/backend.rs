//! The interface between a control surface and an audio backend.

use std::sync::atomic::AtomicBool;
use std::sync::Arc;
use vstd::prelude::*;

verus! {

/// How a device is opened: alongside the platform mixer, or for this
/// application alone.
#[derive(Debug, Clone, Copy, PartialEq, Eq, Structural)]
pub enum Mode {
    Shared,
    Exclusive,
}

/// One selectable entry of the device catalog. Callers choose entries by
/// their position in the catalog.
#[derive(Debug, Clone)]
pub struct DeviceEntry {
    pub name: String,
    /// Platform identifier of the underlying device, where the platform has one.
    pub device_id: Option<String>,
    pub mode: Mode,
    /// The device can capture.
    pub is_input: bool,
    /// The device can render.
    pub is_output: bool,
}

/// What a `DeviceEntry` holds, as plain values.
pub struct DeviceEntryView {
    pub name: Seq<char>,
    pub device_id: Option<Seq<char>>,
    pub mode: Mode,
    pub is_input: bool,
    pub is_output: bool,
}

/// The text of an optional string.
pub open spec fn text_of(s: Option<String>) -> Option<Seq<char>> {
    match s {
        Some(t) => Some(t@),
        None => None,
    }
}

impl View for DeviceEntry {
    type V = DeviceEntryView;

    open spec fn view(&self) -> DeviceEntryView {
        DeviceEntryView {
            name: self.name@,
            device_id: text_of(self.device_id),
            mode: self.mode,
            is_input: self.is_input,
            is_output: self.is_output,
        }
    }
}

impl DeviceEntry {
    /// A copy with the same contents.
    pub fn duplicate(&self) -> (copy: DeviceEntry)
        ensures
            copy@ == self@,
    {
        let device_id = match &self.device_id {
            Some(id) => Some(id.clone()),
            None => None,
        };
        DeviceEntry {
            name: self.name.clone(),
            device_id,
            mode: self.mode,
            is_input: self.is_input,
            is_output: self.is_output,
        }
    }
}

/// Why a backend call failed, with a message for the user.
#[derive(Debug)]
pub enum BackendError {
    InitError(String),
    StartError(String),
}

impl BackendError {
    /// The message carried by either variant.
    pub open spec fn text(self) -> Seq<char> {
        match self {
            BackendError::InitError(m) => m@,
            BackendError::StartError(m) => m@,
        }
    }

    /// The message carried by either variant.
    pub fn message(&self) -> (m: &String)
        ensures
            m@ == self.text(),
    {
        match self {
            BackendError::InitError(m) => m,
            BackendError::StartError(m) => m,
        }
    }
}

/// A start failure carrying exactly `msg`.
pub open spec fn is_start_error(e: BackendError, msg: Seq<char>) -> bool {
    e matches BackendError::StartError(m) && m@ == msg
}

/// An initialisation failure carrying exactly `msg`.
pub open spec fn is_init_error(e: BackendError, msg: Seq<char>) -> bool {
    e matches BackendError::InitError(m) && m@ == msg
}

/// An audio backend as the control surface sees it.
pub trait AudioBackend {
    /// The catalog of selectable devices.
    fn enumerate_devices(&self) -> Result<Vec<DeviceEntry>, BackendError>;

    /// Starts routing between the entries at the given catalog positions. The
    /// call does not block: audio runs on threads that the backend owns.
    fn start(
        &mut self,
        input_a: Option<usize>,
        input_b: Option<usize>,
        output: Option<usize>,
        listen_a: Arc<AtomicBool>,
        listen_b: Arc<AtomicBool>,
    ) -> Result<(), BackendError>;

    /// Stops routing and releases every resource of the running session.
    fn stop(&mut self) -> Result<(), BackendError>;
}

} // verus!
