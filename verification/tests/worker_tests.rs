use worker_supervisor::diagnostics::{
    handle_internal_message, log_line, unexpected_data_line, DiagnosticAction, InternalMessage,
    LogSeverity,
};
use worker_supervisor::ids::{RouterId, SubscriptionTarget, WebRtcServerId, WorkerId};
use worker_supervisor::lifecycle::{describe_exit, ExitError, LifecycleAction};
use worker_supervisor::notifications::Notification;
use worker_supervisor::requests::{RequestError, ResponseOutcome};
use worker_supervisor::settings::{StartErrorKind, WorkerLogLevel, WorkerSettings, WorkerUpdateSettings};
use worker_supervisor::worker::{
    readiness_target, startup_result, Channel, CreateRouterError, CreateWebRtcServerError,
    ReadinessHandshake, RtpCapabilitiesError, StartedWorker, StartupSignal, Worker,
};

const ID: u128 = 0xa1a2a3a4_b1b2_c1c2_d1d2_d3d4d5d6d7d8;
const ID_TEXT: &str = "a1a2a3a4-b1b2-c1c2-d1d2-d3d4d5d6d7d8";

fn started() -> StartedWorker {
    Worker::new(&WorkerSettings::default(), 4242).unwrap()
}

#[test]
fn identifiers_are_random_uuids() {
    let a = WorkerId::new();
    let b = WorkerId::new();
    assert_ne!(a, b);
    for value in [a.value, RouterId::new().value, WebRtcServerId::new().value] {
        assert_eq!((value >> 76) & 0xf, 4);
        assert_eq!((value >> 62) & 0x3, 2);
    }
}

#[test]
fn identifiers_read_as_hyphenated_text() {
    assert_eq!(WorkerId { value: ID }.to_text(), ID_TEXT);
    assert_eq!(RouterId { value: ID }.to_text(), ID_TEXT);
    assert_eq!(WebRtcServerId { value: ID }.to_text(), ID_TEXT);
    assert_eq!(WorkerId { value: 0 }.to_text(), "00000000-0000-0000-0000-000000000000");
    assert_eq!(RouterId { value: 5 }.target(), SubscriptionTarget::Uuid(5));
    assert_eq!(WebRtcServerId { value: 6 }.target(), SubscriptionTarget::Uuid(6));
}

fn hyphenated(value: u128) -> String {
    let mut text = String::new();
    for at in 0..36u32 {
        if at == 8 || at == 13 || at == 18 || at == 23 {
            text.push('-');
        } else {
            let hyphens = [8u32, 13, 18, 23].iter().filter(|h| at > **h).count() as u32;
            let digit = at - hyphens;
            let nibble = ((value >> (4 * (31 - digit))) & 0xf) as u32;
            text.push(std::char::from_digit(nibble, 16).unwrap());
        }
    }
    text
}

#[test]
fn identifier_text_is_lower_case_hex_in_five_groups() {
    let mut values: Vec<u128> = vec![
        0,
        u128::MAX,
        ID,
        0x0123456789abcdef_fedcba9876543210,
        0xf000000000000000_0000000000000000,
        0x0000000000000000_000000000000000f,
        1 << 64,
        (1 << 64) - 1,
    ];
    for shift in 0..128 {
        values.push(1u128 << shift);
        values.push(0xau128.rotate_left(shift));
    }
    for _ in 0..50 {
        values.push(WorkerId::new().value);
    }
    for value in values {
        assert_eq!(WorkerId { value }.to_text(), hyphenated(value));
    }
    assert_eq!(hyphenated(ID), ID_TEXT);
}

#[test]
fn start_with_empty_port_range_fails_before_anything_is_started() {
    let mut settings = WorkerSettings::default();
    settings.rtc_ports_range = 20000..=19999;
    let error = Worker::new(&settings, 1).err().unwrap();
    assert_eq!(error.kind, StartErrorKind::InvalidInput);
    assert_eq!(error.message, "Invalid RTC ports range");
}

#[test]
fn start_buffers_the_first_notification_until_a_callback_waits() {
    let StartedWorker { worker, mut channel, spawn_args, ready_guard } = started();
    assert!(!worker.closed());
    assert_eq!(spawn_args[0], "");
    assert_eq!(spawn_args[1], "--logLevel=debug");
    assert_eq!(spawn_args.len(), 17);
    assert_eq!(ready_guard.target(), &SubscriptionTarget::String("4242".to_string()));
    assert_eq!(readiness_target(4242), SubscriptionTarget::String("4242".to_string()));
    assert!(channel.notifications.is_buffering(&readiness_target(4242)));

    let early = channel.notifications.notify(Notification {
        target: readiness_target(4242),
        event: 3,
        payload: Vec::new(),
    });
    assert!(early.notifications.is_empty());

    let watch = worker.wait_for_worker_ready(&mut channel, ready_guard);
    assert_eq!(watch.subscription, Some(0));
    assert_eq!(watch.buffered.subscribers, vec![0]);
    assert_eq!(watch.buffered.notifications.len(), 1);
    assert_eq!(watch.buffered.notifications[0].event, 3);
    assert!(!channel.notifications.is_buffering(&readiness_target(4242)));

    let mut handshake = ReadinessHandshake::new();
    assert!(!handshake.answered());
    let signal = handshake.first_notification(true);
    assert!(handshake.answered());
    assert_eq!(worker.startup_outcome(signal), Ok(()));
}

#[test]
fn startup_results() {
    assert_eq!(startup_result(ID_TEXT, StartupSignal::FirstNotification { running: true }), Ok(()));
    let error =
        startup_result(ID_TEXT, StartupSignal::FirstNotification { running: false }).unwrap_err();
    assert_eq!(error.kind, StartErrorKind::Other);
    assert_eq!(
        error.message,
        "unexpected first notification from worker [id:a1a2a3a4-b1b2-c1c2-d1d2-d3d4d5d6d7d8]"
    );
    let error = startup_result(ID_TEXT, StartupSignal::Exited(Err(ExitError::Unexpected)))
        .unwrap_err();
    assert_eq!(error.kind, StartErrorKind::NotFound);
    assert_eq!(
        error.message,
        "worker thread exited before being ready [id:a1a2a3a4-b1b2-c1c2-d1d2-d3d4d5d6d7d8]: exit status Err(Unexpected)"
    );
    let error = startup_result("x", StartupSignal::Exited(Ok(()))).unwrap_err();
    assert_eq!(error.message, "worker thread exited before being ready [id:x]: exit status Ok(())");
    let error = startup_result(ID_TEXT, StartupSignal::Abandoned).unwrap_err();
    assert_eq!(error.kind, StartErrorKind::Other);
    assert_eq!(error.message, "Worker dropped before it is ready");
}

#[test]
fn startup_outcome_names_the_worker() {
    let worker = started().worker;
    let error = worker.startup_outcome(StartupSignal::Exited(Err(ExitError::Generic))).unwrap_err();
    assert_eq!(
        error.message,
        format!(
            "worker thread exited before being ready [id:{}]: exit status Err(Generic)",
            worker.id().to_text()
        )
    );
    assert_eq!(worker.id().to_text().len(), 36);
}

#[test]
fn exit_status_reads_as_debug_text() {
    let cases: Vec<Result<(), ExitError>> = vec![
        Ok(()),
        Err(ExitError::Generic),
        Err(ExitError::Settings),
        Err(ExitError::Unknown { status_code: 5 }),
        Err(ExitError::Unknown { status_code: -17 }),
        Err(ExitError::Unknown { status_code: i32::MIN }),
        Err(ExitError::Unexpected),
    ];
    for status in cases {
        assert_eq!(describe_exit(status), format!("{:?}", status));
    }
}

#[test]
fn close_many_times_acts_once() {
    let mut worker = started().worker;
    let first = worker.close();
    assert_eq!(first, vec![LifecycleAction::SendCloseRequest, LifecycleAction::NotifyClosed]);
    assert!(worker.closed());
    for _ in 0..5 {
        assert!(worker.close().is_empty());
        assert!(worker.closed());
    }
}

#[test]
fn close_listener_registered_after_close_is_called_at_once() {
    let mut worker = started().worker;
    assert!(!worker.on_close());
    worker.close();
    assert!(worker.on_close());
}

#[test]
fn dead_listeners_are_told_of_an_unexpected_end_once() {
    let mut worker = started().worker;
    let status = Err(ExitError::Unknown { status_code: 42 });
    let actions = worker.exited(status);
    assert_eq!(actions, vec![LifecycleAction::NotifyDead(status), LifecycleAction::NotifyClosed]);
    assert!(worker.closed());
    assert!(worker.on_close());
    assert!(worker.exited(status).is_empty());
    assert!(worker.close().is_empty());
}

#[test]
fn dead_listeners_are_silent_after_an_explicit_close() {
    let mut worker = started().worker;
    worker.close();
    assert!(worker.exited(Ok(())).is_empty());
    assert!(worker.exited(Err(ExitError::Unexpected)).is_empty());
}

#[test]
fn create_router_buffers_until_the_handle_exists() {
    let StartedWorker { worker, mut channel, .. } = started();
    let pending = worker.create_router(&mut channel, Ok(())).unwrap().unwrap();
    let router = SubscriptionTarget::Uuid(pending.entity());
    assert_eq!((pending.entity() >> 76) & 0xf, 4);
    assert!(channel.notifications.is_buffering(&router));
    assert!(channel.requests.is_pending(pending.request_id()));

    let early = channel.notifications.notify(Notification {
        target: SubscriptionTarget::Uuid(pending.entity()),
        event: 9,
        payload: vec![1],
    });
    assert!(early.notifications.is_empty());

    let answer = channel.requests.complete(pending.request_id(), ResponseOutcome::Accepted(None));
    assert_eq!(answer, Some(Ok(None)));
    let router_id = pending.router_result(Ok(())).unwrap();
    assert_eq!(router_id.value, pending.entity());

    let handle = channel.notifications.subscribe(router_id.target()).unwrap();
    let flushed = channel.end_creation(pending);
    assert_eq!(flushed.subscribers, vec![handle]);
    assert_eq!(flushed.notifications.len(), 1);
    assert_eq!(flushed.notifications[0].event, 9);
    assert!(!channel.notifications.is_buffering(&router));
}

#[test]
fn create_router_with_bad_capabilities_asks_nothing_of_the_engine() {
    let StartedWorker { worker, mut channel, .. } = started();
    let failure = RtpCapabilitiesError { reason: "unsupported codec".to_string() };
    let outcome = worker.create_router(&mut channel, Err(failure)).unwrap();
    assert_eq!(
        outcome.err().unwrap(),
        CreateRouterError::FailedRtpCapabilitiesGeneration(RtpCapabilitiesError {
            reason: "unsupported codec".to_string()
        })
    );
    assert!(!channel.requests.is_pending(0));
    assert_eq!(channel.requests.begin(), Ok(0));
}

#[test]
fn create_router_on_a_closed_transport_fails_and_releases_the_guard() {
    let StartedWorker { worker, mut channel, .. } = started();
    channel.requests.close();
    let id = RouterId { value: 77 };
    let outcome = worker.create_router_with_id(&mut channel, id, Ok(()));
    assert_eq!(outcome.err().unwrap(), CreateRouterError::Request(RequestError::ChannelClosed));
    assert!(!channel.notifications.is_buffering(&id.target()));
    let outcome = worker.create_router(&mut channel, Ok(())).unwrap();
    assert_eq!(outcome.err().unwrap(), CreateRouterError::Request(RequestError::ChannelClosed));
}

#[test]
fn create_router_failure_from_the_engine() {
    let StartedWorker { worker, mut channel, .. } = started();
    let pending = worker.create_router_with_id(&mut channel, RouterId { value: 5 }, Ok(())).unwrap();
    assert_eq!(pending.entity(), 5);
    let answer = channel
        .requests
        .complete(pending.request_id(), ResponseOutcome::Rejected("full".to_string()))
        .unwrap();
    let result = pending.router_result(answer.map(|_| ()));
    assert_eq!(
        result,
        Err(CreateRouterError::Request(RequestError::Response { reason: "full".to_string() }))
    );
    let flushed = channel.end_creation(pending);
    assert!(flushed.notifications.is_empty());
    assert!(!channel.notifications.is_buffering(&SubscriptionTarget::Uuid(5)));
}

#[test]
fn create_webrtc_server_round_trip() {
    let StartedWorker { worker, mut channel, .. } = started();
    let pending = worker.create_webrtc_server(&mut channel).unwrap().unwrap();
    assert!(channel.notifications.is_buffering(&SubscriptionTarget::Uuid(pending.entity())));
    let server = pending.webrtc_server_result(Ok(())).unwrap();
    assert_eq!(server.value, pending.entity());
    channel.end_creation(pending);

    let id = WebRtcServerId { value: 9 };
    let pending = worker.create_webrtc_server_with_id(&mut channel, id).unwrap();
    assert_eq!(
        pending.webrtc_server_result(Err(RequestError::TimedOut)),
        Err(CreateWebRtcServerError::Request(RequestError::TimedOut))
    );
    channel.end_creation(pending);

    channel.requests.close();
    let outcome = worker.create_webrtc_server_with_id(&mut channel, id);
    assert_eq!(
        outcome.err().unwrap(),
        CreateWebRtcServerError::Request(RequestError::ChannelClosed)
    );
    assert!(!channel.notifications.is_buffering(&id.target()));
}

#[test]
fn creation_error_messages() {
    assert_eq!(
        CreateWebRtcServerError::Request(RequestError::TimedOut).message(),
        "Request to worker failed: Request timed out"
    );
    assert_eq!(
        CreateRouterError::Request(RequestError::NoData).message(),
        "Request to worker failed: Worker did not return any data in response"
    );
    assert_eq!(
        CreateRouterError::FailedRtpCapabilitiesGeneration(RtpCapabilitiesError {
            reason: "no".to_string()
        })
        .message(),
        "RTP capabilities generation error: no"
    );
}

#[test]
fn update_settings_and_dump_are_requests() {
    let StartedWorker { worker, mut channel, .. } = started();
    let mut data = WorkerUpdateSettings::default();
    data.log_level = Some(WorkerLogLevel::Off);
    let request = worker.update_settings(&mut channel, &data).unwrap();
    assert_eq!(request.request_id, 0);
    assert_eq!(request.fields.log_level, Some("none".to_string()));
    assert_eq!(request.fields.log_tags, None);
    assert_eq!(worker.dump(&mut channel), Ok(1));
    assert!(channel.requests.is_pending(0) && channel.requests.is_pending(1));
    channel.requests.close();
    assert_eq!(worker.update_settings(&mut channel, &data).err(), Some(RequestError::ChannelClosed));
    assert_eq!(worker.dump(&mut channel), Err(RequestError::ChannelClosed));
}

#[test]
fn update_settings_result_follows_the_request() {
    let StartedWorker { worker, mut channel, .. } = started();
    let request = worker.update_settings(&mut channel, &WorkerUpdateSettings::default()).unwrap();
    assert_eq!(request.result(Ok(None)), Ok(()));
    assert_eq!(request.result(Ok(Some(vec![1, 2]))), Ok(()));
    assert_eq!(request.result(Err(RequestError::TimedOut)), Err(RequestError::TimedOut));
    assert_eq!(
        request.result(Err(RequestError::Response { reason: "bad tag".to_string() })),
        Err(RequestError::Response { reason: "bad tag".to_string() })
    );
}

#[test]
fn dump_in_flight_fails_when_the_transport_closes() {
    let StartedWorker { worker, mut channel, .. } = started();
    let id = worker.dump(&mut channel).unwrap();
    let mut abandoned = channel.requests.close();
    assert_eq!(abandoned.len(), 1);
    let request = abandoned.remove(0);
    assert_eq!(request.id, id);
    assert_eq!(worker.dump_result(Err(request.failure)), Err(RequestError::ChannelClosed));
    assert_eq!(worker.dump(&mut channel), Err(RequestError::ChannelClosed));
    assert!(!channel.requests.is_pending(id));
}

#[test]
fn dump_result_needs_a_body() {
    let worker = started().worker;
    assert_eq!(worker.dump_result(Ok(Some(vec![7, 8]))), Ok(vec![7, 8]));
    assert_eq!(worker.dump_result(Ok(None)), Err(RequestError::NoData));
    assert_eq!(
        worker.dump_result(Err(RequestError::FailedToParse { error: "eof".to_string() })),
        Err(RequestError::FailedToParse { error: "eof".to_string() })
    );
}

#[test]
fn create_router_on_an_idle_channel_starts_the_creation() {
    for _ in 0..20 {
        let StartedWorker { worker, mut channel, ready_guard, .. } = started();
        worker.wait_for_worker_ready(&mut channel, ready_guard);
        let outcome = worker.create_router(&mut channel, Ok(()));
        let pending = outcome.unwrap().unwrap();
        assert!(channel.requests.is_pending(pending.request_id()));
        let server = worker.create_webrtc_server(&mut channel).unwrap().unwrap();
        assert_ne!(server.entity(), pending.entity());
    }
}

#[test]
fn new_channel_is_idle() {
    let mut channel = Channel::new();
    assert!(!channel.requests.is_closed());
    assert!(!channel.notifications.is_buffering(&SubscriptionTarget::Uuid(0)));
    assert_eq!(channel.begin_creation(1).unwrap().request_id(), 0);
}

#[test]
fn log_lines() {
    assert_eq!(
        log_line("w", false, LogSeverity::Debug, "hello"),
        DiagnosticAction::Log { severity: LogSeverity::Debug, text: "[id:w] hello".to_string() }
    );
    assert_eq!(
        log_line("w", true, LogSeverity::Warn, "careful"),
        DiagnosticAction::Log { severity: LogSeverity::Warn, text: "[id:w] careful".to_string() }
    );
    assert_eq!(
        log_line("w", false, LogSeverity::Error, "bad"),
        DiagnosticAction::Log { severity: LogSeverity::Error, text: "[id:w] bad".to_string() }
    );
    assert_eq!(log_line("w", true, LogSeverity::Error, "bad"), DiagnosticAction::Ignore);
    assert_eq!(unexpected_data_line("w", "??"), "worker[id:w] unexpected channel data: ??");
}

#[test]
fn internal_messages() {
    let id = WorkerId { value: ID };
    assert_eq!(
        handle_internal_message(&id, false, InternalMessage::Debug("d".to_string())),
        DiagnosticAction::Log {
            severity: LogSeverity::Debug,
            text: format!("[id:{}] d", ID_TEXT)
        }
    );
    assert_eq!(
        handle_internal_message(&id, true, InternalMessage::Warn("w".to_string())),
        DiagnosticAction::Log { severity: LogSeverity::Warn, text: format!("[id:{}] w", ID_TEXT) }
    );
    assert_eq!(
        handle_internal_message(&id, false, InternalMessage::Error("e".to_string())),
        DiagnosticAction::Log { severity: LogSeverity::Error, text: format!("[id:{}] e", ID_TEXT) }
    );
    assert_eq!(
        handle_internal_message(&id, true, InternalMessage::Error("e".to_string())),
        DiagnosticAction::Ignore
    );
    assert_eq!(
        handle_internal_message(&id, true, InternalMessage::Dump("state".to_string())),
        DiagnosticAction::PrintError("state".to_string())
    );
    assert_eq!(
        handle_internal_message(&id, true, InternalMessage::Unexpected(vec![0x68, 0x69, 0xff])),
        DiagnosticAction::Log {
            severity: LogSeverity::Error,
            text: format!("worker[id:{}] unexpected channel data: hi\u{fffd}", ID_TEXT)
        }
    );
}
