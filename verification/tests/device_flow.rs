use apt_transport_kyc::device_flow::{
    announce_to_user, default_interval, device_request, device_status_ok, endpoint, poll_outcome,
    post_device, post_token, refused_message, token_request, token_status_ok, truncate,
    DeviceFlowConfig, DeviceFlowError, DeviceResp, FlowAction, FlowEvent, FlowState, PollOutcome,
    Reply, TokenResp, UserIo,
};

fn config() -> DeviceFlowConfig<()> {
    DeviceFlowConfig::defaults(
        "agent/1".to_string(),
        UserIo::AptMethod { status_sink: Some(()) },
    )
}

fn device(interval: u64) -> DeviceResp {
    DeviceResp {
        device_code: "dc".to_string(),
        user_code: "ABCD-EFGH".to_string(),
        verification_uri: "https://id.knowyourco.de/verify".to_string(),
        interval,
    }
}

fn token(license: Option<&str>, error: Option<&str>, detail: Option<&str>) -> TokenResp {
    TokenResp {
        license: license.map(str::to_string),
        error: error.map(str::to_string),
        detail: detail.map(str::to_string),
    }
}

#[test]
fn the_defaults() {
    let config = config();
    assert_eq!(config.worker_origin, "https://id.knowyourco.de");
    assert_eq!(config.referral_tag, "closed-beta");
    assert_eq!(config.timeout_nanos, 840_000_000_000);
    assert_eq!(config.user_agent, "agent/1");
    assert!(matches!(config.user_io, UserIo::AptMethod { status_sink: Some(()) }));
    assert_eq!(default_interval(), 5);
}

#[test]
fn errors_in_words() {
    assert_eq!(DeviceFlowError::Http("h".to_string()).message(), "h");
    assert_eq!(DeviceFlowError::Timeout.message(), "timed out waiting for sign-in");
    assert_eq!(
        DeviceFlowError::Expired.message(),
        "sign-in code expired before you finished. Re-run sign-in."
    );
    assert_eq!(DeviceFlowError::Worker("w".to_string()).message(), "w");
}

#[test]
fn truncation() {
    assert_eq!(truncate("abc", 3), "abc");
    assert_eq!(truncate("abcd", 3), "abc\u{2026}");
    assert_eq!(truncate("", 0), "");
    assert_eq!(truncate("a\u{e9}b", 3), "a\u{e9}\u{2026}");
    assert_eq!(truncate("a\u{e9}b", 2), "a\u{2026}");
    assert_eq!(truncate("\u{1f600}", 3), "\u{2026}");
    assert_eq!(truncate("\u{1f600}", 4), "\u{1f600}");
    assert_eq!(truncate("x", 0), "\u{2026}");
}

#[test]
fn endpoints() {
    assert_eq!(endpoint("https://h", "/device"), "https://h/device");
    assert_eq!(endpoint("https://h//", "/token"), "https://h/token");
}

#[test]
fn the_forms_that_are_posted() {
    let post = device_request("https://h/", "tag");
    assert_eq!(post.url, "https://h/device");
    assert_eq!(post.fields, vec![("ref".to_string(), "tag".to_string())]);
    let post = token_request("https://h", "dc");
    assert_eq!(post.url, "https://h/token");
    assert_eq!(
        post.fields,
        vec![
            (
                "grant_type".to_string(),
                "urn:ietf:params:oauth:grant-type:device_code".to_string()
            ),
            ("device_code".to_string(), "dc".to_string()),
        ]
    );
}

#[test]
fn statuses_that_are_read_on() {
    for status in 100..1000u16 {
        assert_eq!(device_status_ok(status), (200..300).contains(&status));
        assert_eq!(
            token_status_ok(status),
            (200..300).contains(&status) || (400..500).contains(&status)
        );
    }
}

#[test]
fn replies_that_failed() {
    let e = post_device("https://h/", Reply::Failed("no route".to_string())).unwrap_err();
    assert!(matches!(&e, DeviceFlowError::Http(m) if m == "POST https://h/device: no route"));
    let e = post_token("https://h", Reply::Refused { status: 502, body: "x".repeat(201) })
        .unwrap_err();
    assert_eq!(
        e.message(),
        format!("POST https://h/token returned HTTP 502 Bad Gateway: {}\u{2026}", "x".repeat(200))
    );
    let e = post_device("https://h", Reply::Refused { status: 404, body: "gone".to_string() })
        .unwrap_err();
    assert_eq!(e.message(), "POST https://h/device returned HTTP 404 Not Found: gone");
    let body = format!("{}\u{e9}{}", "x".repeat(199), "y".repeat(50));
    let e = post_device("https://h", Reply::Refused { status: 500, body }).unwrap_err();
    assert_eq!(
        e.message(),
        format!(
            "POST https://h/device returned HTTP 500 Internal Server Error: {}\u{2026}",
            "x".repeat(199)
        )
    );
    let e = post_token("https://h", Reply::Body(Err("bad json".to_string()))).unwrap_err();
    assert_eq!(e.message(), "POST https://h/token returned non-JSON: bad json");
    let d = post_device("https://h", Reply::Body(Ok(device(3)))).unwrap();
    assert_eq!(d.device_code, "dc");
    assert_eq!(d.interval, 3);
}

#[test]
fn refusals_in_words() {
    assert_eq!(refused_message("u", "500 s", "b"), "POST u returned HTTP 500 s: b");
}

#[test]
fn what_an_answer_means() {
    assert!(matches!(
        poll_outcome(token(Some("pem"), Some("authorization_pending"), None)),
        PollOutcome::Done(Ok(license)) if license == "pem"
    ));
    assert!(matches!(
        poll_outcome(token(None, Some("authorization_pending"), Some("wait"))),
        PollOutcome::Pending
    ));
    assert!(matches!(
        poll_outcome(token(None, Some("expired_token"), Some("late"))),
        PollOutcome::Done(Err(DeviceFlowError::Expired))
    ));
    assert!(matches!(
        poll_outcome(token(None, Some("access_denied"), Some("no seat"))),
        PollOutcome::Done(Err(DeviceFlowError::Worker(m))) if m == "no seat"
    ));
    assert!(matches!(
        poll_outcome(token(None, Some("access_denied"), None)),
        PollOutcome::Done(Err(DeviceFlowError::Worker(m))) if m == "access_denied"
    ));
    assert!(matches!(
        poll_outcome(token(None, None, Some("x"))),
        PollOutcome::Done(Err(DeviceFlowError::Worker(m)))
            if m == "/token returned neither a license nor an error"
    ));
}

const SIGN_IN: &str = "\nSign in to install:\n\n    Open this URL in a browser:\n        https://id.knowyourco.de/verify\n\n    Then enter this code on that page:\n        ABCD-EFGH\n\n";
const ENTER: &str = "Press Enter to open the URL in your browser (or open it yourself).\n";

#[test]
fn what_the_user_is_told() {
    let d = device(5);
    let cli: UserIo<()> = UserIo::Cli { enable_browser: true };
    let a = announce_to_user(&d, &cli, true);
    assert_eq!(a.stderr, format!("{SIGN_IN}{ENTER}"));
    assert_eq!(a.open_on_enter.as_deref(), Some("https://id.knowyourco.de/verify"));
    assert_eq!(a.status, None);

    let a = announce_to_user(&d, &cli, false);
    assert_eq!(a.stderr, SIGN_IN);
    assert_eq!(a.open_on_enter, None);

    let quiet: UserIo<()> = UserIo::Cli { enable_browser: false };
    let a = announce_to_user(&d, &quiet, true);
    assert_eq!(a.stderr, format!("{SIGN_IN}{ENTER}"));
    assert_eq!(a.open_on_enter, None);

    let apt = UserIo::AptMethod { status_sink: Some(()) };
    let a = announce_to_user(&d, &apt, true);
    assert_eq!(a.stderr, SIGN_IN);
    assert_eq!(a.open_on_enter, None);
    assert_eq!(
        a.status.as_deref(),
        Some("Visit https://id.knowyourco.de/verify and enter code ABCD-EFGH")
    );

    let silent: UserIo<()> = UserIo::AptMethod { status_sink: None };
    assert_eq!(announce_to_user(&d, &silent, true).status, None);
}

const SECOND: u128 = 1_000_000_000;

/// Runs the flow up to its first clock reading.
fn announced(config: &DeviceFlowConfig<()>, interval: u64) -> FlowState {
    let (state, action) = FlowState::start(config);
    assert!(matches!(action, FlowAction::PostDevice(p) if p.url == "https://id.knowyourco.de/device"));
    let (state, action) =
        state.step(config, false, FlowEvent::Device(Reply::Body(Ok(device(interval)))));
    assert!(matches!(action, FlowAction::Announce(a) if a.stderr == SIGN_IN));
    let (state, action) = state.step(config, false, FlowEvent::Announced);
    assert!(matches!(action, FlowAction::ReadClock));
    state
}

/// Runs the flow up to its first poll; gives the time that it slept for.
fn first_poll(config: &DeviceFlowConfig<()>, interval: u64) -> (FlowState, u128) {
    let state = announced(config, interval);
    let (state, action) = state.step(config, false, FlowEvent::Clock(0));
    let nanos = match action {
        FlowAction::Sleep(nanos) => nanos,
        other => panic!("expected a sleep, got {other:?}"),
    };
    let (state, action) = state.step(config, false, FlowEvent::Slept);
    assert!(matches!(action, FlowAction::ReadClock));
    let (state, action) = state.step(config, false, FlowEvent::Clock(1));
    assert!(matches!(action, FlowAction::PostToken(p) if p.url == "https://id.knowyourco.de/token"));
    (state, nanos)
}

#[test]
fn a_sign_in_that_takes_two_polls() {
    let config = config();
    let (state, nanos) = first_poll(&config, 7);
    assert_eq!(nanos, 7 * SECOND);
    let pending = token(None, Some("authorization_pending"), None);
    let (state, action) = state.step(&config, false, FlowEvent::Token(Reply::Body(Ok(pending))));
    assert!(matches!(action, FlowAction::ReadClock));
    let (state, action) = state.step(&config, false, FlowEvent::Clock(7 * SECOND));
    assert!(matches!(action, FlowAction::Sleep(7_000_000_000)));
    let (state, action) = state.step(&config, false, FlowEvent::Slept);
    assert!(matches!(action, FlowAction::ReadClock));
    let (state, action) = state.step(&config, false, FlowEvent::Clock(14 * SECOND));
    assert!(matches!(action, FlowAction::PostToken(_)));
    let done = token(Some("pem"), None, None);
    let (state, action) = state.step(&config, false, FlowEvent::Token(Reply::Body(Ok(done))));
    assert!(matches!(action, FlowAction::Finish(Ok(license)) if license == "pem"));
    assert!(matches!(state, FlowState::Finished));
}

#[test]
fn an_interval_of_nothing_is_a_second() {
    assert_eq!(first_poll(&config(), 0).1, SECOND);
    assert_eq!(first_poll(&config(), 1).1, SECOND);
}

#[test]
fn the_time_runs_out() {
    for (elapsed, over) in [(839_999_999_999, false), (840_000_000_000, true), (u128::MAX, true)] {
        let config = config();
        let (state, _) = first_poll(&config, 5);
        let pending = token(None, Some("authorization_pending"), None);
        let (state, _) = state.step(&config, false, FlowEvent::Token(Reply::Body(Ok(pending))));
        let (_, action) = state.step(&config, false, FlowEvent::Clock(elapsed));
        let timed_out = matches!(action, FlowAction::Finish(Err(DeviceFlowError::Timeout)));
        assert_eq!(timed_out, over);
    }
}

#[test]
fn a_worker_that_cannot_be_reached_ends_the_flow() {
    let config = config();
    let (state, _) = FlowState::start(&config);
    let (state, action) =
        state.step(&config, false, FlowEvent::Device(Reply::Failed("down".to_string())));
    assert!(matches!(state, FlowState::Finished));
    assert!(matches!(
        action,
        FlowAction::Finish(Err(DeviceFlowError::Http(m)))
            if m == "POST https://id.knowyourco.de/device: down"
    ));
    let (state, _) = first_poll(&config, 5);
    let (_, action) = state.step(
        &config,
        false,
        FlowEvent::Token(Reply::Refused { status: 500, body: String::new() }),
    );
    assert!(matches!(
        action,
        FlowAction::Finish(Err(DeviceFlowError::Http(m)))
            if m == "POST https://id.knowyourco.de/token returned HTTP 500 Internal Server Error: "
    ));
}

#[test]
fn a_refused_or_expired_sign_in_ends_the_flow() {
    let config = config();
    let (state, _) = first_poll(&config, 5);
    let expired = token(None, Some("expired_token"), None);
    let (_, action) = state.step(&config, false, FlowEvent::Token(Reply::Body(Ok(expired))));
    assert!(matches!(action, FlowAction::Finish(Err(DeviceFlowError::Expired))));
}

#[test]
fn a_sleep_ends_with_the_time() {
    // One second to sign in, five between polls, and a user who takes three.
    let mut config = config();
    config.timeout_nanos = SECOND;
    let state = announced(&config, 5);
    let (state, action) = state.step(&config, false, FlowEvent::Clock(SECOND / 4));
    assert!(matches!(action, FlowAction::Sleep(750_000_000)));
    let (state, action) = state.step(&config, false, FlowEvent::Slept);
    assert!(matches!(action, FlowAction::ReadClock));
    let (state, action) = state.step(&config, false, FlowEvent::Clock(SECOND));
    assert!(matches!(action, FlowAction::Finish(Err(DeviceFlowError::Timeout))));
    assert!(matches!(state, FlowState::Finished));

    let state = announced(&config, u64::MAX);
    let (_, action) = state.step(&config, false, FlowEvent::Clock(0));
    assert!(matches!(action, FlowAction::Sleep(SECOND)));
}

#[test]
fn no_poll_is_started_when_the_time_is_over() {
    for (elapsed, over) in [(839_999_999_999, false), (840_000_000_000, true)] {
        let config = config();
        let state = announced(&config, 5);
        let (state, _) = state.step(&config, false, FlowEvent::Clock(0));
        let (state, _) = state.step(&config, false, FlowEvent::Slept);
        let (_, action) = state.step(&config, false, FlowEvent::Clock(elapsed));
        assert_eq!(matches!(action, FlowAction::PostToken(_)), !over);
        let timed_out = matches!(action, FlowAction::Finish(Err(DeviceFlowError::Timeout)));
        assert_eq!(timed_out, over);
    }
}

#[test]
fn polls_fit_in_the_time() {
    let config = config();
    let mut state = announced(&config, 5);
    let mut polls = 0u128;
    let mut clock = 0u128;
    loop {
        let (next, action) = state.step(&config, false, FlowEvent::Clock(clock));
        match action {
            FlowAction::Sleep(nanos) => clock += nanos,
            other => panic!("expected a sleep, got {other:?}"),
        }
        let (next, action) = next.step(&config, false, FlowEvent::Slept);
        assert!(matches!(action, FlowAction::ReadClock));
        let (next, action) = next.step(&config, false, FlowEvent::Clock(clock));
        match action {
            FlowAction::PostToken(_) => polls += 1,
            FlowAction::Finish(Err(DeviceFlowError::Timeout)) => break,
            other => panic!("expected a poll or the end, got {other:?}"),
        }
        let pending = token(None, Some("authorization_pending"), None);
        let (next, _) = next.step(&config, false, FlowEvent::Token(Reply::Body(Ok(pending))));
        state = next;
    }
    assert_eq!(clock, config.timeout_nanos);
    assert_eq!(polls, 167);
    assert!(polls * 5 * SECOND < config.timeout_nanos);
}
