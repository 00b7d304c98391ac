use observatory::alert::{alert_message, transition_alert};
use observatory::poller::{
    eps_info, health_url, ip_from_output, is_success, plan_poll, poll_service, precheck,
    probe_outcome, trim, white_space, CheckOutcome, EpsManifest, EpsPackage, EpsService,
    ProbeResult, DEGRADED, RUNNING, STOPPED,
};

fn outcome(status: &str, ms: Option<i64>, code: Option<u16>) -> CheckOutcome {
    CheckOutcome { status: status.to_string(), response_ms: ms, status_code: code }
}

fn same(a: &CheckOutcome, b: &CheckOutcome) -> bool {
    a.status == b.status && a.response_ms == b.response_ms && a.status_code == b.status_code
}

#[test]
fn precheck_stopped_when_port_closed() {
    for has_health in [false, true] {
        let o = precheck(false, has_health).expect("decided");
        assert!(same(&o, &outcome("stopped", None, None)));
    }
}

#[test]
fn precheck_running_without_health_check() {
    let o = precheck(true, false).expect("decided");
    assert!(same(&o, &outcome("running", None, None)));
}

#[test]
fn precheck_needs_probe() {
    assert!(precheck(true, true).is_none());
}

#[test]
fn is_success_bounds() {
    assert!(!is_success(199));
    assert!(is_success(200));
    assert!(is_success(204));
    assert!(is_success(299));
    assert!(!is_success(300));
    assert!(!is_success(404));
    assert!(!is_success(0));
    assert!(!is_success(u16::MAX));
}

#[test]
fn probe_outcome_success() {
    let o = probe_outcome(ProbeResult::Responded { status_code: 200, elapsed_ms: 15 });
    assert!(same(&o, &outcome("running", Some(15), Some(200))));
}

#[test]
fn probe_outcome_error_status() {
    let o = probe_outcome(ProbeResult::Responded { status_code: 503, elapsed_ms: 40 });
    assert!(same(&o, &outcome("degraded", Some(40), Some(503))));
    let o = probe_outcome(ProbeResult::Responded { status_code: 301, elapsed_ms: 1 });
    assert!(same(&o, &outcome("degraded", Some(1), Some(301))));
}

#[test]
fn probe_outcome_failed_request() {
    let o = probe_outcome(ProbeResult::Failed { elapsed_ms: 2000 });
    assert!(same(&o, &outcome("degraded", Some(2000), None)));
}

#[test]
fn statuses_are_the_three_words() {
    assert_eq!(RUNNING, "running");
    assert_eq!(DEGRADED, "degraded");
    assert_eq!(STOPPED, "stopped");
}

#[test]
fn health_url_format() {
    assert_eq!(health_url("100.78.103.79", 5543), "http://100.78.103.79:5543/health");
    assert_eq!(health_url("", 0), "http://:0/health");
    assert_eq!(health_url("h", 65535), "http://h:65535/health");
}

#[test]
fn eps_info_reads_both_fields() {
    let m = EpsManifest {
        package: Some(EpsPackage { repository: Some("https://github.com/a/b".to_string()) }),
        service: Some(EpsService { health_check: Some("/health".to_string()) }),
    };
    assert_eq!(
        eps_info(Some(m)),
        (Some("/health".to_string()), Some("https://github.com/a/b".to_string()))
    );
}

#[test]
fn eps_info_missing_parts() {
    assert_eq!(eps_info(None), (None, None));
    let m = EpsManifest { package: None, service: Some(EpsService { health_check: None }) };
    assert_eq!(eps_info(Some(m)), (None, None));
    let m = EpsManifest { package: Some(EpsPackage { repository: None }), service: None };
    assert_eq!(eps_info(Some(m)), (None, None));
}

#[test]
fn ip_from_output_trims() {
    assert_eq!(ip_from_output(Some(b"100.78.103.79\n".to_vec())), "100.78.103.79");
    assert_eq!(ip_from_output(Some(b"  \t10.0.0.1 \r\n".to_vec())), "10.0.0.1");
}

#[test]
fn ip_from_output_invalid_or_missing() {
    assert_eq!(ip_from_output(Some(vec![0xff, 0xfe, b'1'])), "");
    assert_eq!(ip_from_output(None), "");
    assert_eq!(ip_from_output(Some(vec![])), "");
}

#[test]
fn ip_from_output_decodes_utf8() {
    let text = "\u{3000}caf\u{e9}\u{a0}";
    assert_eq!(ip_from_output(Some(text.as_bytes().to_vec())), "caf\u{e9}");
}

#[test]
fn trim_agrees_with_std() {
    for s in [
        "", " ", "a", " a ", "\u{85}x\u{2028}", "\u{200b}x\u{200b}", "\u{1680}\u{2000}\u{200a} y z \u{202f}\u{205f}\u{3000}",
        "\t\n\x0b\x0c\r in \r\n",
    ] {
        assert_eq!(trim(s), s.trim(), "trim of {:?}", s);
    }
}

#[test]
fn trim_is_idempotent() {
    let s = "\u{a0} \tx y\n ";
    let once = trim(s);
    assert_eq!(trim(&once), once);
}

#[test]
fn white_space_agrees_with_std() {
    for u in 0u32..0x3100 {
        if let Some(c) = char::from_u32(u) {
            assert_eq!(white_space(c), c.is_whitespace(), "{:#x}", u);
        }
    }
    assert!(!white_space('\u{10ffff}'));
}

#[test]
fn alert_message_per_status() {
    assert_eq!(alert_message("morning_brief", "stopped"), "[Observatory] morning_brief is DOWN");
    assert_eq!(alert_message("txtme", "running"), "[Observatory] txtme recovered");
    assert_eq!(alert_message("x", "degraded"), "[Observatory] x is DEGRADED");
    assert_eq!(alert_message("x", "other"), "[Observatory] x is DOWN");
}

#[test]
fn transition_alert_on_change() {
    let url = Some("http://t/send".to_string());
    let a = transition_alert("svc", &Some("running".to_string()), "stopped", &url).expect("alert");
    assert_eq!(a.url, "http://t/send");
    assert_eq!(a.message, "[Observatory] svc is DOWN");
}

#[test]
fn transition_alert_quiet_cases() {
    let url = Some("http://t/send".to_string());
    assert!(transition_alert("svc", &None, "stopped", &url).is_none());
    assert!(transition_alert("svc", &Some("stopped".to_string()), "stopped", &url).is_none());
    assert!(transition_alert("svc", &Some("running".to_string()), "stopped", &None).is_none());
}

#[test]
fn plan_poll_writes_and_alerts() {
    let plan = plan_poll(
        "svc",
        "2024-05-01T10:00:00+00:00".to_string(),
        outcome("degraded", Some(30), Some(500)),
        Some("https://github.com/a/svc".to_string()),
        &Some("running".to_string()),
        &Some("http://t/send".to_string()),
    );
    assert_eq!(plan.service, "svc");
    assert_eq!(plan.checked_at, "2024-05-01T10:00:00+00:00");
    assert!(same(&plan.outcome, &outcome("degraded", Some(30), Some(500))));
    assert_eq!(plan.repo_url.as_deref(), Some("https://github.com/a/svc"));
    let a = plan.alert.expect("alert");
    assert_eq!(a.message, "[Observatory] svc is DEGRADED");
    assert_eq!(a.url, "http://t/send");
}

#[test]
fn plan_poll_recovery_message() {
    let plan = plan_poll(
        "txtme",
        "t".to_string(),
        outcome("running", None, None),
        None,
        &Some("stopped".to_string()),
        &Some("u".to_string()),
    );
    assert_eq!(plan.alert.expect("alert").message, "[Observatory] txtme recovered");
}

#[test]
fn steady_status_sends_no_alert() {
    let url = Some("u".to_string());
    let first = plan_poll("s", "t1".to_string(), outcome("running", None, None), None, &None, &url);
    assert!(first.alert.is_none());
    let stored = Some(first.outcome.status.clone());
    let second = plan_poll("s", "t2".to_string(), outcome("running", None, None), None, &stored, &url);
    assert!(second.alert.is_none());
    let stored = Some(second.outcome.status.clone());
    let third = plan_poll("s", "t3".to_string(), outcome("stopped", None, None), None, &stored, &url);
    assert!(third.alert.is_some());
}

#[test]
fn poll_service_stamps_current_utc_time() {
    let plan = poll_service("s", outcome("running", None, None), None, &None, &None)
        .ok()
        .expect("clock after 1970");
    assert!(plan.checked_at.ends_with("+00:00"));
    assert!(plan.checked_at.len() >= 25);
    assert_eq!(&plan.checked_at[10..11], "T");
    assert!(chrono::DateTime::parse_from_rfc3339(&plan.checked_at).is_ok());
    assert!(plan.alert.is_none());
    assert_eq!(plan.service, "s");
}
