//! One attempt to start a session: which device to open next, and what to do
//! once a device is open or could not be opened.
//!
//! The devices are opened one after the other, the output first. When the
//! last one is open the session is planned; when a device cannot be opened, or
//! the formats do not fit together, the attempt is given up and every device
//! opened so far is to be released, the one opened last first.

use crate::backend::{is_start_error, BackendError};
use crate::controller::{
    is_plan_for, plan_failure, plan_session, release_order, Role, Selection, SelectionView,
    SessionPlan, Target, TargetView,
};
use crate::format::StreamFormat;
use crate::message::start_error;
use vstd::prelude::*;

verus! {

/// A device to open for a pipeline.
#[derive(Debug, Clone)]
pub struct OpenRequest {
    pub role: Role,
    pub target: Target,
}

/// What an `OpenRequest` holds, as plain values.
pub struct OpenRequestView {
    pub role: Role,
    pub target: TargetView,
}

impl View for OpenRequest {
    type V = OpenRequestView;

    open spec fn view(&self) -> OpenRequestView {
        OpenRequestView { role: self.role, target: self.target@ }
    }
}

/// A device that was opened, with the format negotiated for it.
#[derive(Debug, Clone, Copy, PartialEq, Eq, Structural)]
pub struct OpenedDevice {
    pub role: Role,
    pub format: StreamFormat,
}

/// What the requests of a list hold.
pub open spec fn request_views(requests: Seq<OpenRequest>) -> Seq<OpenRequestView> {
    requests.map_values(|r: OpenRequest| r@)
}

/// The roles of the devices of a list.
pub open spec fn opened_roles(opened: Seq<OpenedDevice>) -> Seq<Role> {
    opened.map_values(|d: OpenedDevice| d.role)
}

/// The devices that a selection asks for, in the order in which they are
/// opened: the output, then input A, then input B.
pub open spec fn open_order(selection: SelectionView) -> Seq<OpenRequestView> {
    let output = seq![OpenRequestView { role: Role::Render, target: selection.output }];
    let a = match selection.input_a {
        Some(target) => seq![OpenRequestView { role: Role::CaptureA, target }],
        None => Seq::<OpenRequestView>::empty(),
    };
    let b = match selection.input_b {
        Some(target) => seq![OpenRequestView { role: Role::CaptureB, target }],
        None => Seq::<OpenRequestView>::empty(),
    };
    output + a + b
}

/// The format of the device opened last for `role`, if one was opened.
pub open spec fn format_of(opened: Seq<OpenedDevice>, role: Role) -> Option<StreamFormat>
    decreases opened.len(),
{
    if opened.len() == 0 {
        None
    } else if opened.last().role == role {
        Some(opened.last().format)
    } else {
        format_of(opened.drop_last(), role)
    }
}

/// The devices opened once the device that waits is open with `format`.
pub open spec fn opened_with(
    waiting: Seq<OpenRequestView>,
    opened: Seq<OpenedDevice>,
    format: StreamFormat,
) -> Seq<OpenedDevice> {
    opened.push(OpenedDevice { role: waiting[0].role, format })
}

/// The message with which a start is given up once all these devices are
/// open, or `None` where their formats fit together.
pub open spec fn session_failure(opened: Seq<OpenedDevice>) -> Option<Seq<char>> {
    match format_of(opened, Role::Render) {
        Some(output) => plan_failure(
            format_of(opened, Role::CaptureA),
            format_of(opened, Role::CaptureB),
            output,
        ),
        None => None,
    }
}

/// Whether `plan` is the plan of a session over these opened devices.
pub open spec fn is_session_plan(plan: SessionPlan, opened: Seq<OpenedDevice>) -> bool {
    match format_of(opened, Role::Render) {
        Some(output) => is_plan_for(
            plan,
            format_of(opened, Role::CaptureA),
            format_of(opened, Role::CaptureB),
            output,
        ),
        None => false,
    }
}

/// What a start has come to.
pub enum Progress {
    /// Another device is to be opened: the one that the attempt now waits
    /// for.
    Continue(StartAttempt),
    /// Every device is open and the formats fit together: the transports and
    /// pipelines of this plan are to be started.
    Run(SessionPlan),
    /// The start is given up: these devices are to be released, in this order,
    /// and the error reported.
    Abort(Vec<Role>, BackendError),
}

/// A start in progress.
pub struct StartAttempt {
    /// The requests not yet answered; the first is the one being opened.
    queue: Vec<OpenRequest>,
    /// The devices opened so far, in the order of opening.
    opened: Vec<OpenedDevice>,
}

impl StartAttempt {
    #[verifier::type_invariant]
    spec fn well_formed(self) -> bool {
        &&& self.queue@.len() > 0
        &&& self.opened@.len() == 0 ==> self.queue@[0].role == Role::Render
        &&& self.opened@.len() > 0 ==> self.opened@[0].role == Role::Render
    }

    /// The devices still to be opened; the first is the one being opened now.
    pub closed spec fn waiting(&self) -> Seq<OpenRequestView> {
        request_views(self.queue@)
    }

    /// The devices opened so far, in the order of opening.
    pub closed spec fn opened(&self) -> Seq<OpenedDevice> {
        self.opened@
    }

    /// Begins a start for the devices of `selection`. The output is opened
    /// first.
    pub fn begin(selection: Selection) -> (attempt: StartAttempt)
        ensures
            attempt.waiting() == open_order(selection@),
            attempt.opened().len() == 0,
    {
        let mut queue: Vec<OpenRequest> = Vec::new();
        queue.push(OpenRequest { role: Role::Render, target: selection.output });
        match selection.input_a {
            Some(target) => {
                queue.push(OpenRequest { role: Role::CaptureA, target });
            },
            None => {},
        }
        match selection.input_b {
            Some(target) => {
                queue.push(OpenRequest { role: Role::CaptureB, target });
            },
            None => {},
        }
        proof {
            assert(request_views(queue@) =~= open_order(selection@));
        }
        StartAttempt { queue, opened: Vec::new() }
    }

    /// The device to open now.
    pub fn current(&self) -> (request: &OpenRequest)
        ensures
            self.waiting().len() > 0,
            request@ == self.waiting()[0],
    {
        proof {
            use_type_invariant(self);
        }
        &self.queue[0]
    }

    /// The device that waited was opened with `format`. Either another device
    /// is to be opened, or the session is planned from the formats of all the
    /// devices; formats that do not fit together end the attempt, and then
    /// every device opened, this one too, is to be released, last first.
    pub fn device_opened(self, format: StreamFormat) -> (progress: Progress)
        ensures
            self.waiting().len() > 0,
            match progress {
                Progress::Continue(next) => {
                    &&& self.waiting().len() > 1
                    &&& next.waiting() == self.waiting().skip(1)
                    &&& next.opened() == opened_with(self.waiting(), self.opened(), format)
                },
                Progress::Run(plan) => {
                    &&& self.waiting().len() == 1
                    &&& session_failure(opened_with(self.waiting(), self.opened(), format)).is_none()
                    &&& is_session_plan(plan, opened_with(self.waiting(), self.opened(), format))
                },
                Progress::Abort(release, error) => {
                    &&& self.waiting().len() == 1
                    &&& release@ == opened_roles(
                        opened_with(self.waiting(), self.opened(), format),
                    ).reverse()
                    &&& session_failure(opened_with(self.waiting(), self.opened(), format)).is_some()
                    &&& is_start_error(
                        error,
                        session_failure(
                            opened_with(self.waiting(), self.opened(), format),
                        ).unwrap(),
                    )
                },
            },
    {
        proof {
            use_type_invariant(&self);
        }
        let mut queue = self.queue;
        let mut opened = self.opened;
        let ghost waiting = request_views(queue@);
        let ghost before = opened@;
        let request = queue.remove(0);
        opened.push(OpenedDevice { role: request.role, format });
        proof {
            assert(request_views(queue@) =~= waiting.skip(1));
            assert(opened@ =~= before.push(OpenedDevice { role: waiting[0].role, format }));
        }
        if queue.len() > 0 {
            return Progress::Continue(StartAttempt { queue, opened });
        }
        let input_a = find_format(&opened, Role::CaptureA);
        let input_b = find_format(&opened, Role::CaptureB);
        let output = match find_format(&opened, Role::Render) {
            Some(f) => f,
            None => {
                proof {
                    lemma_format_of_present(opened@, 0);
                }
                opened[0].format
            },
        };
        match plan_session(input_a, input_b, output) {
            Ok(plan) => Progress::Run(plan),
            Err(error) => {
                let roles = roles_opened(&opened);
                Progress::Abort(release_order(&roles), error)
            },
        }
    }

    /// The device that waited could not be opened. The attempt is over: the
    /// devices opened before it are to be released, last first, and the error
    /// reported as it came.
    pub fn device_failed(self, error: BackendError) -> (abort: (Vec<Role>, BackendError))
        ensures
            abort.0@ == opened_roles(self.opened()).reverse(),
            abort.1 == error,
    {
        let roles = roles_opened(&self.opened);
        (release_order(&roles), error)
    }
}

/// A device opened for a role has a format on record.
proof fn lemma_format_of_present(opened: Seq<OpenedDevice>, i: int)
    requires
        0 <= i < opened.len(),
    ensures
        format_of(opened, opened[i].role).is_some(),
    decreases opened.len(),
{
    if opened.last().role != opened[i].role {
        lemma_format_of_present(opened.drop_last(), i);
    }
}

/// The format of the device opened last for `role`, if one was opened.
fn find_format(opened: &Vec<OpenedDevice>, role: Role) -> (format: Option<StreamFormat>)
    ensures
        format == format_of(opened@, role),
{
    let mut left: usize = opened.len();
    proof {
        assert(opened@.take(left as int) =~= opened@);
    }
    while left > 0
        invariant
            left <= opened@.len(),
            format_of(opened@, role) == format_of(opened@.take(left as int), role),
        decreases left,
    {
        left -= 1;
        proof {
            let upto = opened@.take(left + 1);
            assert(upto.last() == opened@[left as int]);
            assert(upto.drop_last() =~= opened@.take(left as int));
        }
        if opened[left].role == role {
            return Some(opened[left].format);
        }
    }
    None
}

/// The roles of the devices opened, in the order of opening.
fn roles_opened(opened: &Vec<OpenedDevice>) -> (roles: Vec<Role>)
    ensures
        roles@ == opened_roles(opened@),
{
    let mut roles: Vec<Role> = Vec::new();
    let mut i: usize = 0;
    while i < opened.len()
        invariant
            i <= opened@.len(),
            roles@ == opened_roles(opened@.take(i as int)),
        decreases opened@.len() - i,
    {
        roles.push(opened[i].role);
        i += 1;
        proof {
            assert(roles@ =~= opened_roles(opened@.take(i as int)));
        }
    }
    proof {
        assert(opened@.take(i as int) =~= opened@);
    }
    roles
}

/// What a pipeline thread reports once it has asked its device for the
/// capture or render service.
#[derive(Debug, Clone, Copy, PartialEq, Eq, Structural)]
pub struct ServiceReport {
    pub role: Role,
    /// Whether the device gave the service.
    pub acquired: bool,
}

/// The role of the first report of a refused service, if there is one.
pub open spec fn first_refusal(reports: Seq<ServiceReport>) -> Option<Role>
    decreases reports.len(),
{
    if reports.len() == 0 {
        None
    } else if !reports[0].acquired {
        Some(reports[0].role)
    } else {
        first_refusal(reports.drop_first())
    }
}

/// The message for a pipeline whose device refused its service.
pub open spec fn refusal_text(role: Role) -> Seq<char> {
    match role {
        Role::CaptureA => "Input A capture service unavailable"@,
        Role::CaptureB => "Input B capture service unavailable"@,
        Role::Render => "Output render service unavailable"@,
    }
}

/// Looks at the reports of the pipeline threads of a session that was just
/// started. A refused service is a start failure that names the pipeline, the
/// first one reported; the session is then to be stopped as a whole.
pub fn confirm_started(reports: &Vec<ServiceReport>) -> (r: Result<(), BackendError>)
    ensures
        match first_refusal(reports@) {
            None => r.is_ok(),
            Some(role) => r matches Err(e) && is_start_error(e, refusal_text(role)),
        },
{
    let mut i: usize = 0;
    proof {
        assert(reports@.skip(0) =~= reports@);
    }
    while i < reports.len()
        invariant
            i <= reports@.len(),
            first_refusal(reports@) == first_refusal(reports@.skip(i as int)),
        decreases reports@.len() - i,
    {
        proof {
            assert(reports@.skip(i as int).drop_first() =~= reports@.skip(i + 1));
        }
        if !reports[i].acquired {
            return Err(
                match reports[i].role {
                    Role::CaptureA => start_error(
                        "Input A capture service unavailable",
                    ),
                    Role::CaptureB => start_error(
                        "Input B capture service unavailable",
                    ),
                    Role::Render => start_error(
                        "Output render service unavailable",
                    ),
                },
            );
        }
        i += 1;
    }
    Ok(())
}

} // verus!
