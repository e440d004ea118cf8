//! The life of a pipeline thread, the same for capture and render: it starts,
//! runs until it is told to stop, stops its device, and is gone.

use vstd::prelude::*;

verus! {

/// Where a pipeline stands.
#[derive(Debug, Clone, Copy, PartialEq, Eq, Structural)]
pub enum PipelineState {
    /// The thread asks its device for the capture or render service.
    Starting,
    /// The device clock runs and buffers are moved.
    Running,
    /// The device clock is being stopped and the device released.
    Stopping,
    /// Nothing is held any more.
    Stopped,
}

/// What happened to a pipeline.
#[derive(Debug, Clone, Copy, PartialEq, Eq, Structural)]
pub enum PipelineEvent {
    /// The device gave its service.
    ServiceReady,
    /// The device refused its service.
    ServiceFailed,
    /// The stop flag was read at the top of the loop.
    Polled { stop: bool },
    /// The bounded wait ended because the device signalled a buffer.
    Signalled,
    /// The bounded wait ended because its time ran out.
    TimedOut,
    /// A buffer operation of the device failed in the middle of a period.
    BufferFailed,
    /// The device is released.
    Released,
}

/// What a pipeline does next.
#[derive(Debug, Clone, Copy, PartialEq, Eq, Structural)]
pub enum PipelineAction {
    /// Start the device clock, then read the stop flag.
    StartClock,
    /// Read the stop flag.
    Poll,
    /// Wait for the device, for a bounded time.
    Wait,
    /// Move the buffers that are ready, then read the stop flag.
    Process,
    /// Stop the device clock, then release the device.
    StopClock,
    /// Release the device, whose clock never ran.
    Release,
    /// Leave the thread.
    Exit,
}

/// The milliseconds that a pipeline waits for its device before it reads the
/// stop flag again.
pub const WAIT_MILLIS: u32 = 2000;

/// The state and the action that follow an event. A refused service ends the
/// pipeline before it ran. A wait that times out is no failure, and a buffer
/// operation that fails ends the period and not the pipeline: either way the
/// pipeline reads the stop flag and goes on. An event that does not belong to
/// the state leaves the state as it is.
pub open spec fn transition(state: PipelineState, event: PipelineEvent) -> (
    PipelineState,
    PipelineAction,
) {
    match state {
        PipelineState::Starting => match event {
            PipelineEvent::ServiceReady => (PipelineState::Running, PipelineAction::StartClock),
            PipelineEvent::ServiceFailed => (PipelineState::Stopping, PipelineAction::Release),
            _ => (PipelineState::Starting, PipelineAction::Poll),
        },
        PipelineState::Running => match event {
            PipelineEvent::Polled { stop } => if stop {
                (PipelineState::Stopping, PipelineAction::StopClock)
            } else {
                (PipelineState::Running, PipelineAction::Wait)
            },
            PipelineEvent::Signalled => (PipelineState::Running, PipelineAction::Process),
            _ => (PipelineState::Running, PipelineAction::Poll),
        },
        PipelineState::Stopping => match event {
            PipelineEvent::Released => (PipelineState::Stopped, PipelineAction::Exit),
            _ => (PipelineState::Stopping, PipelineAction::StopClock),
        },
        PipelineState::Stopped => (PipelineState::Stopped, PipelineAction::Exit),
    }
}

/// Takes a pipeline from one state to the next.
pub fn step(state: PipelineState, event: PipelineEvent) -> (next: (PipelineState, PipelineAction))
    ensures
        next == transition(state, event),
{
    match state {
        PipelineState::Starting => match event {
            PipelineEvent::ServiceReady => (PipelineState::Running, PipelineAction::StartClock),
            PipelineEvent::ServiceFailed => (PipelineState::Stopping, PipelineAction::Release),
            _ => (PipelineState::Starting, PipelineAction::Poll),
        },
        PipelineState::Running => match event {
            PipelineEvent::Polled { stop } => if stop {
                (PipelineState::Stopping, PipelineAction::StopClock)
            } else {
                (PipelineState::Running, PipelineAction::Wait)
            },
            PipelineEvent::Signalled => (PipelineState::Running, PipelineAction::Process),
            _ => (PipelineState::Running, PipelineAction::Poll),
        },
        PipelineState::Stopping => match event {
            PipelineEvent::Released => (PipelineState::Stopped, PipelineAction::Exit),
            _ => (PipelineState::Stopping, PipelineAction::StopClock),
        },
        PipelineState::Stopped => (PipelineState::Stopped, PipelineAction::Exit),
    }
}

/// How far a state is along the life of a pipeline.
pub open spec fn progress(state: PipelineState) -> nat {
    match state {
        PipelineState::Starting => 0,
        PipelineState::Running => 1,
        PipelineState::Stopping => 2,
        PipelineState::Stopped => 3,
    }
}

/// A pipeline never goes back: whatever happens, the next state is the same
/// state or a later one, a stopped pipeline stays stopped, and the device is
/// released on every way out of `Starting` and `Running`.
pub proof fn law_pipeline_moves_forward(state: PipelineState, event: PipelineEvent)
    ensures
        progress(transition(state, event).0) >= progress(state),
        state == PipelineState::Stopped ==> transition(state, event) == (
            PipelineState::Stopped,
            PipelineAction::Exit,
        ),
        transition(state, event).0 == PipelineState::Stopped ==> state == PipelineState::Stopping
            || state == PipelineState::Stopped,
        transition(state, event).0 == PipelineState::Stopping ==> transition(state, event).1
            == PipelineAction::StopClock || transition(state, event).1 == PipelineAction::Release,
{
}

/// Neither a wait that runs out of time nor a failed buffer operation is
/// fatal: a running pipeline keeps running and reads the stop flag again.
pub proof fn law_running_survives_trouble()
    ensures
        transition(PipelineState::Running, PipelineEvent::TimedOut) == (
            PipelineState::Running,
            PipelineAction::Poll,
        ),
        transition(PipelineState::Running, PipelineEvent::BufferFailed) == (
            PipelineState::Running,
            PipelineAction::Poll,
        ),
{
}

/// Only a stop request takes a running pipeline out of `Running`.
pub proof fn law_only_stop_ends_running(event: PipelineEvent)
    ensures
        transition(PipelineState::Running, event).0 != PipelineState::Running <==> event == (
            PipelineEvent::Polled { stop: true }),
{
}

} // verus!
