use audio_router::pipeline::{step, PipelineAction, PipelineEvent, PipelineState, WAIT_MILLIS};

const EVENTS: [PipelineEvent; 8] = [
    PipelineEvent::ServiceReady,
    PipelineEvent::ServiceFailed,
    PipelineEvent::Polled { stop: false },
    PipelineEvent::Polled { stop: true },
    PipelineEvent::Signalled,
    PipelineEvent::TimedOut,
    PipelineEvent::BufferFailed,
    PipelineEvent::Released,
];

const STATES: [PipelineState; 4] = [
    PipelineState::Starting,
    PipelineState::Running,
    PipelineState::Stopping,
    PipelineState::Stopped,
];

fn rank(state: PipelineState) -> u8 {
    match state {
        PipelineState::Starting => 0,
        PipelineState::Running => 1,
        PipelineState::Stopping => 2,
        PipelineState::Stopped => 3,
    }
}

#[test]
fn wait_is_bounded_by_two_seconds() {
    assert_eq!(WAIT_MILLIS, 2000);
}

#[test]
fn life_of_a_pipeline() {
    let (s, a) = step(PipelineState::Starting, PipelineEvent::ServiceReady);
    assert_eq!((s, a), (PipelineState::Running, PipelineAction::StartClock));
    let (s, a) = step(s, PipelineEvent::Polled { stop: false });
    assert_eq!((s, a), (PipelineState::Running, PipelineAction::Wait));
    let (s, a) = step(s, PipelineEvent::Signalled);
    assert_eq!((s, a), (PipelineState::Running, PipelineAction::Process));
    let (s, a) = step(s, PipelineEvent::Polled { stop: true });
    assert_eq!((s, a), (PipelineState::Stopping, PipelineAction::StopClock));
    let (s, a) = step(s, PipelineEvent::Released);
    assert_eq!((s, a), (PipelineState::Stopped, PipelineAction::Exit));
}

#[test]
fn refused_service_releases_the_device() {
    let (s, a) = step(PipelineState::Starting, PipelineEvent::ServiceFailed);
    assert_eq!((s, a), (PipelineState::Stopping, PipelineAction::Release));
    assert_eq!(step(s, PipelineEvent::Released), (PipelineState::Stopped, PipelineAction::Exit));
}

#[test]
fn timeout_is_not_fatal() {
    assert_eq!(
        step(PipelineState::Running, PipelineEvent::TimedOut),
        (PipelineState::Running, PipelineAction::Poll)
    );
}

#[test]
fn failed_buffer_operation_is_not_fatal() {
    assert_eq!(
        step(PipelineState::Running, PipelineEvent::BufferFailed),
        (PipelineState::Running, PipelineAction::Poll)
    );
}

#[test]
fn stopped_pipeline_stays_stopped() {
    for e in EVENTS {
        assert_eq!(step(PipelineState::Stopped, e), (PipelineState::Stopped, PipelineAction::Exit));
    }
}

#[test]
fn pipeline_never_goes_back() {
    for s in STATES {
        for e in EVENTS {
            let (next, action) = step(s, e);
            assert!(rank(next) >= rank(s));
            if next == PipelineState::Stopping {
                assert!(action == PipelineAction::StopClock || action == PipelineAction::Release);
            }
            if next == PipelineState::Stopped {
                assert_eq!(action, PipelineAction::Exit);
            }
        }
    }
}

#[test]
fn only_a_stop_request_ends_running() {
    for e in EVENTS {
        let (next, _) = step(PipelineState::Running, e);
        assert_eq!(next != PipelineState::Running, e == PipelineEvent::Polled { stop: true });
    }
}

#[test]
fn events_out_of_place_change_nothing() {
    assert_eq!(
        step(PipelineState::Starting, PipelineEvent::Signalled),
        (PipelineState::Starting, PipelineAction::Poll)
    );
    assert_eq!(
        step(PipelineState::Starting, PipelineEvent::Polled { stop: true }),
        (PipelineState::Starting, PipelineAction::Poll)
    );
    assert_eq!(
        step(PipelineState::Running, PipelineEvent::ServiceFailed),
        (PipelineState::Running, PipelineAction::Poll)
    );
    assert_eq!(
        step(PipelineState::Stopping, PipelineEvent::Signalled),
        (PipelineState::Stopping, PipelineAction::StopClock)
    );
}
