//! The routing controller: from catalog positions to the devices to open,
//! from negotiated formats to the transports and pipelines of a session, and
//! the record of what a running session owns.

use crate::backend::{is_start_error, BackendError, DeviceEntry, DeviceEntryView, Mode};
use crate::catalog::entry_views;
use crate::format::StreamFormat;
use crate::message::{decimal, decimal_string, start_error};
use crate::transport::Transport;
use vstd::prelude::*;
use vstd::string::StringExecFns;

verus! {

/// One of the two inputs.
#[derive(Debug, Clone, Copy, PartialEq, Eq, Structural)]
pub enum Input {
    A,
    B,
}

/// What a pipeline thread does.
#[derive(Debug, Clone, Copy, PartialEq, Eq, Structural)]
pub enum Role {
    /// Captures input A.
    CaptureA,
    /// Captures input B.
    CaptureB,
    /// Mixes both inputs into the output device.
    Render,
}

/// A device to open, and how.
#[derive(Debug, Clone)]
pub struct Target {
    pub device_id: String,
    pub mode: Mode,
}

/// What a `Target` holds, as plain values.
pub struct TargetView {
    pub device_id: Seq<char>,
    pub mode: Mode,
}

impl View for Target {
    type V = TargetView;

    open spec fn view(&self) -> TargetView {
        TargetView { device_id: self.device_id@, mode: self.mode }
    }
}

/// The devices of a session. They are opened in the order output, input A,
/// input B.
#[derive(Debug, Clone)]
pub struct Selection {
    pub output: Target,
    /// `None` where input A is not connected.
    pub input_a: Option<Target>,
    /// `None` where input B is not connected.
    pub input_b: Option<Target>,
}

/// What a `Selection` holds, as plain values.
pub struct SelectionView {
    pub output: TargetView,
    pub input_a: Option<TargetView>,
    pub input_b: Option<TargetView>,
}

/// What an optional target holds.
pub open spec fn target_view(target: Option<Target>) -> Option<TargetView> {
    match target {
        Some(t) => Some(t@),
        None => None,
    }
}

impl View for Selection {
    type V = SelectionView;

    open spec fn view(&self) -> SelectionView {
        SelectionView {
            output: self.output@,
            input_a: target_view(self.input_a),
            input_b: target_view(self.input_b),
        }
    }
}

/// What a catalog position selects: nothing where no position is given, the
/// entry at the position where there is one. A position past the end of the
/// catalog selects nothing and is an error, here the outer `None`.
pub open spec fn selected(entries: Seq<DeviceEntryView>, ordinal: Option<usize>) -> Option<
    Option<DeviceEntryView>,
> {
    match ordinal {
        None => Some(None),
        Some(i) => if i < entries.len() {
            Some(Some(entries[i as int]))
        } else {
            None
        },
    }
}

/// The device that an entry stands for, where the entry has an identifier.
pub open spec fn target_of(entry: Option<DeviceEntryView>) -> Option<TargetView> {
    match entry {
        Some(e) => match e.device_id {
            Some(id) => Some(TargetView { device_id: id, mode: e.mode }),
            None => None,
        },
        None => None,
    }
}

/// The devices that three catalog positions select, or the message of the
/// start failure. Every position given must lie in the catalog. The output
/// must be given, must be able to render, and must have an identifier. An
/// input whose entry has no identifier counts as not connected.
pub open spec fn resolution(
    entries: Seq<DeviceEntryView>,
    input_a: Option<usize>,
    input_b: Option<usize>,
    output: Option<usize>,
) -> Result<SelectionView, Seq<char>> {
    match (selected(entries, input_a), selected(entries, input_b), selected(entries, output)) {
        (Some(a), Some(b), Some(out)) => match out {
            None => Err("Output device must be selected"@),
            Some(o) => if !o.is_output {
                Err("Output device cannot render audio"@)
            } else {
                match target_of(Some(o)) {
                    None => Err("Output device has no ID"@),
                    Some(target) => Ok(
                        SelectionView {
                            output: target,
                            input_a: target_of(a),
                            input_b: target_of(b),
                        },
                    ),
                }
            },
        },
        _ => Err("Device index out of range"@),
    }
}

/// The entry at a catalog position, if a position is given.
fn pick(entries: &Vec<DeviceEntry>, ordinal: Option<usize>) -> (r: Option<Option<&DeviceEntry>>)
    ensures
        match selected(entry_views(entries@), ordinal) {
            Some(Some(e)) => r matches Some(Some(found)) && found@ == e,
            Some(None) => r == Some(None::<&DeviceEntry>),
            None => r.is_none(),
        },
{
    match ordinal {
        None => Some(None),
        Some(i) => if i < entries.len() {
            Some(Some(&entries[i]))
        } else {
            None
        },
    }
}

/// The device that an entry stands for, where the entry has an identifier.
fn target_for(entry: Option<&DeviceEntry>) -> (t: Option<Target>)
    ensures
        target_view(t) == target_of(
            match entry {
                Some(e) => Some(e@),
                None => None,
            },
        ),
{
    match entry {
        Some(e) => match &e.device_id {
            Some(id) => Some(Target { device_id: id.clone(), mode: e.mode }),
            None => None,
        },
        None => None,
    }
}

/// Resolves the catalog positions chosen for the two inputs and the output.
pub fn resolve(
    entries: &Vec<DeviceEntry>,
    input_a: Option<usize>,
    input_b: Option<usize>,
    output: Option<usize>,
) -> (r: Result<Selection, BackendError>)
    ensures
        match resolution(entry_views(entries@), input_a, input_b, output) {
            Ok(selection) => r matches Ok(s) && s@ == selection,
            Err(text) => r matches Err(e) && is_start_error(e, text),
        },
{
    let a = match pick(entries, input_a) {
        Some(a) => a,
        None => {
            return Err(start_error("Device index out of range"));
        },
    };
    let b = match pick(entries, input_b) {
        Some(b) => b,
        None => {
            return Err(start_error("Device index out of range"));
        },
    };
    let out = match pick(entries, output) {
        Some(out) => out,
        None => {
            return Err(start_error("Device index out of range"));
        },
    };
    let out = match out {
        Some(out) => out,
        None => {
            return Err(start_error("Output device must be selected"));
        },
    };
    if !out.is_output {
        return Err(start_error("Output device cannot render audio"));
    }
    let output = match target_for(Some(out)) {
        Some(t) => t,
        None => {
            return Err(start_error("Output device has no ID"));
        },
    };
    Ok(Selection { output, input_a: target_for(a), input_b: target_for(b) })
}

/// The pipelines of a session, in the order in which their threads are
/// started: a capture pipeline for each connected input, then the render
/// pipeline.
pub open spec fn planned_roles(a_connected: bool, b_connected: bool) -> Seq<Role> {
    let a = if a_connected {
        seq![Role::CaptureA]
    } else {
        Seq::<Role>::empty()
    };
    let b = if b_connected {
        seq![Role::CaptureB]
    } else {
        Seq::<Role>::empty()
    };
    a + b + seq![Role::Render]
}

/// The order in which devices opened one after the other are released when a
/// start is given up: the one opened last goes first.
pub fn release_order(opened: &Vec<Role>) -> (order: Vec<Role>)
    ensures
        order@ == opened@.reverse(),
{
    let mut order: Vec<Role> = Vec::new();
    let mut left: usize = opened.len();
    while left > 0
        invariant
            left <= opened@.len(),
            order@.len() == opened@.len() - left,
            forall|k: int| 0 <= k < order@.len() ==> order@[k] == opened@[opened@.len() - 1 - k],
        decreases left,
    {
        left -= 1;
        order.push(opened[left]);
    }
    proof {
        assert(order@ =~= opened@.reverse());
    }
    order
}

/// Whether an input cannot be mixed into an output: its sample rate is not
/// that of the output, or it has no channels.
pub open spec fn mismatched(input: Option<StreamFormat>, output: StreamFormat) -> bool {
    input matches Some(f) && (f.sample_rate != output.sample_rate || f.channels == 0)
}

/// The letter of an input.
pub open spec fn input_letter(input: Input) -> Seq<char> {
    match input {
        Input::A => "A"@,
        Input::B => "B"@,
    }
}

/// The message for an input that cannot be mixed into the output.
pub open spec fn mismatch_text(input: Input, input_rate: u32, output_rate: u32) -> Seq<char> {
    "Input "@ + input_letter(input) + " sample rate mismatch ("@ + decimal(input_rate as nat)
        + " Hz vs output "@ + decimal(output_rate as nat) + " Hz)"@
}

/// Writes the message for an input that cannot be mixed into the output.
pub fn mismatch_message(input: Input, input_rate: u32, output_rate: u32) -> (s: String)
    ensures
        s@ == mismatch_text(input, input_rate, output_rate),
{
    let mut s = String::from_str("Input ");
    match input {
        Input::A => {
            s.append("A");
        },
        Input::B => {
            s.append("B");
        },
    }
    s.append(" sample rate mismatch (");
    let from = decimal_string(input_rate);
    s.append(from.as_str());
    s.append(" Hz vs output ");
    let to = decimal_string(output_rate);
    s.append(to.as_str());
    s.append(" Hz)");
    s
}

/// What a session needs besides its devices.
#[derive(Debug, Clone, PartialEq, Eq)]
pub struct SessionPlan {
    /// The capacity of the transport of input A; `None` where the input is not
    /// connected and has no transport.
    pub capacity_a: Option<usize>,
    /// The capacity of the transport of input B.
    pub capacity_b: Option<usize>,
    /// The channels of input A; none where it is not connected.
    pub width_a: u16,
    /// The channels of input B.
    pub width_b: u16,
    /// The channels of the output.
    pub width_out: u16,
    /// The pipelines to start, in this order.
    pub roles: Vec<Role>,
}

/// The channels that an input brings to the mix.
pub open spec fn input_width(input: Option<StreamFormat>) -> u16 {
    match input {
        Some(f) => f.channels,
        None => 0,
    }
}

/// The capacity of the transport of an input, where it is connected.
pub open spec fn input_capacity(input: Option<StreamFormat>) -> Option<usize> {
    match input {
        Some(f) => Some(Transport::capacity_for(f.channels) as usize),
        None => None,
    }
}

/// Whether `plan` is the plan of a session with these negotiated formats.
pub open spec fn is_plan_for(
    plan: SessionPlan,
    input_a: Option<StreamFormat>,
    input_b: Option<StreamFormat>,
    output: StreamFormat,
) -> bool {
    &&& plan.capacity_a == input_capacity(input_a)
    &&& plan.capacity_b == input_capacity(input_b)
    &&& plan.width_a == input_width(input_a)
    &&& plan.width_b == input_width(input_b)
    &&& plan.width_out == output.channels
    &&& plan.roles@ == planned_roles(input_a.is_some(), input_b.is_some())
}

/// The capacity of the transport of a connected input.
fn capacity_of(format: &StreamFormat) -> (capacity: usize)
    ensures
        capacity == Transport::capacity_for(format.channels),
{
    let per_frame: usize = if format.channels == 0 {
        1
    } else {
        format.channels as usize
    };
    crate::transport::BUFFER_FRAMES * per_frame
}

/// The message of the start failure for formats that do not fit together, or
/// `None` where they do. Input A is looked at first.
pub open spec fn plan_failure(
    input_a: Option<StreamFormat>,
    input_b: Option<StreamFormat>,
    output: StreamFormat,
) -> Option<Seq<char>> {
    if mismatched(input_a, output) {
        Some(mismatch_text(Input::A, input_a.unwrap().sample_rate, output.sample_rate))
    } else if mismatched(input_b, output) {
        Some(mismatch_text(Input::B, input_b.unwrap().sample_rate, output.sample_rate))
    } else {
        None
    }
}

/// Plans a session from the formats negotiated with its devices. An input
/// that does not run at the sample rate of the output, or has no channels, is
/// a start failure that names the input. Nothing is planned on failure: no
/// transport and no pipeline.
pub fn plan_session(
    input_a: Option<StreamFormat>,
    input_b: Option<StreamFormat>,
    output: StreamFormat,
) -> (r: Result<SessionPlan, BackendError>)
    ensures
        match plan_failure(input_a, input_b, output) {
            None => r matches Ok(plan) && is_plan_for(plan, input_a, input_b, output),
            Some(text) => r matches Err(e) && is_start_error(e, text),
        },
{
    let mut roles: Vec<Role> = Vec::new();
    let mut capacity_a: Option<usize> = None;
    let mut width_a: u16 = 0;
    if let Some(f) = input_a {
        if f.sample_rate != output.sample_rate || f.channels == 0 {
            return Err(
                BackendError::StartError(
                    mismatch_message(Input::A, f.sample_rate, output.sample_rate),
                ),
            );
        }
        capacity_a = Some(capacity_of(&f));
        width_a = f.channels;
        roles.push(Role::CaptureA);
    }
    let mut capacity_b: Option<usize> = None;
    let mut width_b: u16 = 0;
    if let Some(f) = input_b {
        if f.sample_rate != output.sample_rate || f.channels == 0 {
            return Err(
                BackendError::StartError(
                    mismatch_message(Input::B, f.sample_rate, output.sample_rate),
                ),
            );
        }
        capacity_b = Some(capacity_of(&f));
        width_b = f.channels;
        roles.push(Role::CaptureB);
    }
    roles.push(Role::Render);
    proof {
        assert(roles@ =~= planned_roles(input_a.is_some(), input_b.is_some()));
    }
    Ok(SessionPlan { capacity_a, capacity_b, width_a, width_b, width_out: output.channels, roles })
}

/// A running pipeline: what it does, and what the caller holds to end it (a
/// thread to join, a signal to raise, a device to release).
pub struct Pipeline<H> {
    pub role: Role,
    pub handle: H,
}

/// The roles of a list of pipelines.
pub open spec fn roles_of<H>(pipelines: Seq<Pipeline<H>>) -> Seq<Role> {
    pipelines.map_values(|p: Pipeline<H>| p.role)
}

/// What a controller has live after `stop`, and what it hands back.
pub open spec fn after_stop<H>(live: Seq<Pipeline<H>>) -> (Seq<Pipeline<H>>, Seq<Pipeline<H>>) {
    (Seq::<Pipeline<H>>::empty(), live)
}

/// What a controller has live after `start`, and what it hands back.
pub open spec fn after_start<H>(live: Seq<Pipeline<H>>, pipelines: Seq<Pipeline<H>>) -> (
    Seq<Pipeline<H>>,
    Seq<Pipeline<H>>,
) {
    (pipelines, live)
}

/// The record of what the running session owns. Everything that is started
/// is handed to the controller, and everything that it hands back is to be
/// stopped and released.
pub struct Controller<H> {
    live: Vec<Pipeline<H>>,
}

impl<H> Controller<H> {
    /// The pipelines of the running session; none when nothing runs.
    pub closed spec fn live(&self) -> Seq<Pipeline<H>> {
        self.live@
    }

    /// A controller with nothing running.
    pub fn new() -> (c: Controller<H>)
        ensures
            c.live().len() == 0,
    {
        Controller { live: Vec::new() }
    }

    /// Whether a session is running.
    pub fn is_running(&self) -> (running: bool)
        ensures
            running == (self.live().len() > 0),
    {
        self.live.len() > 0
    }

    /// The roles of the live pipelines, in the order in which they were
    /// started.
    pub fn live_roles(&self) -> (roles: Vec<Role>)
        ensures
            roles@ == roles_of(self.live()),
    {
        let mut roles: Vec<Role> = Vec::new();
        let mut i: usize = 0;
        while i < self.live.len()
            invariant
                i <= self.live@.len(),
                roles@ == roles_of(self.live@.take(i as int)),
            decreases self.live@.len() - i,
        {
            roles.push(self.live[i].role);
            i += 1;
            proof {
                assert(roles@ =~= roles_of(self.live@.take(i as int)));
            }
        }
        proof {
            assert(self.live@.take(i as int) =~= self.live@);
        }
        roles
    }

    /// Ends the running session: hands back every live pipeline, to be told
    /// to stop, woken, joined and released, and leaves nothing running. With
    /// nothing running it hands back nothing.
    pub fn stop(&mut self) -> (ended: Vec<Pipeline<H>>)
        ensures
            (final(self).live(), ended@) == after_stop(old(self).live()),
    {
        let mut ended: Vec<Pipeline<H>> = Vec::new();
        ended.append(&mut self.live);
        proof {
            assert(self.live@ =~= Seq::<Pipeline<H>>::empty());
            assert(ended@ =~= old(self).live());
        }
        ended
    }

    /// Makes `pipelines` the running session. Whatever ran before is handed
    /// back to be ended: a start never adds to a running session.
    pub fn start(&mut self, pipelines: Vec<Pipeline<H>>) -> (ended: Vec<Pipeline<H>>)
        ensures
            (final(self).live(), ended@) == after_start(old(self).live(), pipelines@),
    {
        let mut ended = pipelines;
        std::mem::swap(&mut self.live, &mut ended);
        ended
    }
}

/// Stopping twice is stopping once: the second stop finds nothing running,
/// hands back nothing, and leaves nothing running. So does a stop before any
/// start.
pub proof fn law_stop_is_idempotent<H>(live: Seq<Pipeline<H>>)
    ensures
        after_stop(after_stop(live).0) == (Seq::<Pipeline<H>>::empty(), Seq::<Pipeline<H>>::empty()),
        after_stop(Seq::<Pipeline<H>>::empty()) == (
            Seq::<Pipeline<H>>::empty(),
            Seq::<Pipeline<H>>::empty(),
        ),
{
}

/// A start over a running session leaves exactly the pipelines of the new
/// session live, with the roles that the new session has, and hands back
/// every pipeline of the old one.
pub proof fn law_restart_replaces<H>(
    live: Seq<Pipeline<H>>,
    first: Seq<Pipeline<H>>,
    second: Seq<Pipeline<H>>,
)
    ensures
        after_start(after_start(live, first).0, second) == (second, first),
        roles_of(after_start(after_start(live, first).0, second).0) == roles_of(second),
{
}

} // verus!
