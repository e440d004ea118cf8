use audio_router::attempt::{confirm_started, Progress, ServiceReport, StartAttempt};
use audio_router::backend::{BackendError, Mode};
use audio_router::controller::{Role, Selection, Target};
use audio_router::format::StreamFormat;

fn target(id: &str, mode: Mode) -> Target {
    Target { device_id: id.to_string(), mode }
}

fn selection(a: bool, b: bool) -> Selection {
    Selection {
        output: target("out", Mode::Shared),
        input_a: if a { Some(target("in-a", Mode::Exclusive)) } else { None },
        input_b: if b { Some(target("in-b", Mode::Shared)) } else { None },
    }
}

fn format(channels: u16, rate: u32) -> StreamFormat {
    StreamFormat { channels, sample_rate: rate, bits_per_sample: 32, is_float: true }
}

fn next(progress: Progress) -> StartAttempt {
    match progress {
        Progress::Continue(attempt) => attempt,
        Progress::Run(plan) => panic!("planned too early: {:?}", plan),
        Progress::Abort(_, e) => panic!("aborted: {:?}", e),
    }
}

#[test]
fn output_is_opened_first() {
    let attempt = StartAttempt::begin(selection(true, true));
    let request = attempt.current();
    assert_eq!(request.role, Role::Render);
    assert_eq!(request.target.device_id, "out");
    assert_eq!(request.target.mode, Mode::Shared);
}

#[test]
fn inputs_follow_in_order() {
    let attempt = StartAttempt::begin(selection(true, true));
    let attempt = next(attempt.device_opened(format(2, 48000)));
    assert_eq!(attempt.current().role, Role::CaptureA);
    assert_eq!(attempt.current().target.device_id, "in-a");
    assert_eq!(attempt.current().target.mode, Mode::Exclusive);
    let attempt = next(attempt.device_opened(format(1, 48000)));
    assert_eq!(attempt.current().role, Role::CaptureB);
    assert_eq!(attempt.current().target.device_id, "in-b");
    match attempt.device_opened(format(2, 48000)) {
        Progress::Run(plan) => {
            assert_eq!(plan.roles, vec![Role::CaptureA, Role::CaptureB, Role::Render]);
            assert_eq!(plan.width_a, 1);
            assert_eq!(plan.width_b, 2);
            assert_eq!(plan.width_out, 2);
            assert_eq!(plan.capacity_a, Some(16384));
            assert_eq!(plan.capacity_b, Some(32768));
        }
        _ => panic!("expected a plan"),
    }
}

#[test]
fn output_alone_is_planned_at_once() {
    let attempt = StartAttempt::begin(selection(false, false));
    match attempt.device_opened(format(2, 44100)) {
        Progress::Run(plan) => {
            assert_eq!(plan.roles, vec![Role::Render]);
            assert_eq!(plan.capacity_a, None);
            assert_eq!(plan.capacity_b, None);
        }
        _ => panic!("expected a plan"),
    }
}

#[test]
fn input_b_alone_follows_the_output() {
    let attempt = StartAttempt::begin(selection(false, true));
    let attempt = next(attempt.device_opened(format(2, 44100)));
    assert_eq!(attempt.current().role, Role::CaptureB);
    match attempt.device_opened(format(2, 44100)) {
        Progress::Run(plan) => assert_eq!(plan.roles, vec![Role::CaptureB, Role::Render]),
        _ => panic!("expected a plan"),
    }
}

#[test]
fn mismatch_releases_everything_last_opened_first() {
    let attempt = StartAttempt::begin(selection(true, true));
    let attempt = next(attempt.device_opened(format(2, 44100)));
    let attempt = next(attempt.device_opened(format(2, 48000)));
    match attempt.device_opened(format(2, 44100)) {
        Progress::Abort(release, BackendError::StartError(text)) => {
            assert_eq!(release, vec![Role::CaptureB, Role::CaptureA, Role::Render]);
            assert_eq!(text, "Input A sample rate mismatch (48000 Hz vs output 44100 Hz)");
        }
        _ => panic!("expected an abort"),
    }
}

#[test]
fn mismatch_is_found_when_the_last_device_is_open() {
    let attempt = StartAttempt::begin(selection(true, false));
    let attempt = next(attempt.device_opened(format(2, 44100)));
    match attempt.device_opened(format(2, 96000)) {
        Progress::Abort(release, BackendError::StartError(text)) => {
            assert_eq!(release, vec![Role::CaptureA, Role::Render]);
            assert_eq!(text, "Input A sample rate mismatch (96000 Hz vs output 44100 Hz)");
        }
        _ => panic!("expected an abort"),
    }
}

#[test]
fn failure_to_open_releases_what_was_opened() {
    let attempt = StartAttempt::begin(selection(true, true));
    let attempt = next(attempt.device_opened(format(2, 48000)));
    let attempt = next(attempt.device_opened(format(2, 48000)));
    let (release, error) =
        attempt.device_failed(BackendError::StartError("GetDevice failed: 0x80070490".into()));
    assert_eq!(release, vec![Role::CaptureA, Role::Render]);
    match error {
        BackendError::StartError(m) => assert_eq!(m, "GetDevice failed: 0x80070490"),
        other => panic!("unexpected error: {:?}", other),
    }
}

#[test]
fn failure_of_the_output_releases_nothing() {
    let attempt = StartAttempt::begin(selection(true, true));
    let (release, error) = attempt.device_failed(BackendError::InitError("no runtime".into()));
    assert!(release.is_empty());
    assert!(matches!(error, BackendError::InitError(_)));
}

fn report(role: Role, acquired: bool) -> ServiceReport {
    ServiceReport { role, acquired }
}

#[test]
fn session_is_confirmed_when_every_service_was_given() {
    assert!(confirm_started(&Vec::new()).is_ok());
    let reports = vec![
        report(Role::Render, true),
        report(Role::CaptureA, true),
        report(Role::CaptureB, true),
    ];
    assert!(confirm_started(&reports).is_ok());
}

#[test]
fn refused_service_is_a_start_failure() {
    let text = |reports: Vec<ServiceReport>| match confirm_started(&reports) {
        Err(BackendError::StartError(m)) => m,
        other => panic!("unexpected result: {:?}", other),
    };
    assert_eq!(
        text(vec![report(Role::Render, true), report(Role::CaptureA, false)]),
        "Input A capture service unavailable"
    );
    assert_eq!(
        text(vec![report(Role::CaptureB, false), report(Role::Render, true)]),
        "Input B capture service unavailable"
    );
    assert_eq!(text(vec![report(Role::Render, false)]), "Output render service unavailable");
}

#[test]
fn first_refusal_reported_is_named() {
    let reports = vec![
        report(Role::CaptureA, true),
        report(Role::Render, false),
        report(Role::CaptureB, false),
    ];
    match confirm_started(&reports) {
        Err(BackendError::StartError(m)) => assert_eq!(m, "Output render service unavailable"),
        other => panic!("unexpected result: {:?}", other),
    }
}
