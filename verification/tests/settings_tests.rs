use worker_supervisor::settings::{
    StartErrorKind, WorkerDtlsFiles, WorkerLogLevel, WorkerLogTag, WorkerSettings,
    WorkerUpdateSettings,
};
use worker_supervisor::text::{decimal_string, joined, signed_decimal_string};

#[test]
fn log_level_words() {
    assert_eq!(WorkerLogLevel::Debug.as_str(), "debug");
    assert_eq!(WorkerLogLevel::Warn.as_str(), "warn");
    assert_eq!(WorkerLogLevel::Error.as_str(), "error");
    assert_eq!(WorkerLogLevel::Off.as_str(), "none");
}

#[test]
fn log_level_default_is_error() {
    assert_eq!(WorkerLogLevel::default(), WorkerLogLevel::Error);
}

#[test]
fn log_tag_words() {
    let expected = [
        (WorkerLogTag::Info, "info"),
        (WorkerLogTag::Ice, "ice"),
        (WorkerLogTag::Dtls, "dtls"),
        (WorkerLogTag::Rtp, "rtp"),
        (WorkerLogTag::Srtp, "srtp"),
        (WorkerLogTag::Rtcp, "rtcp"),
        (WorkerLogTag::Rtx, "rtx"),
        (WorkerLogTag::Bwe, "bwe"),
        (WorkerLogTag::Score, "score"),
        (WorkerLogTag::Simulcast, "simulcast"),
        (WorkerLogTag::Svc, "svc"),
        (WorkerLogTag::Sctp, "sctp"),
        (WorkerLogTag::Message, "message"),
    ];
    for (tag, word) in expected {
        assert_eq!(tag.as_str(), word);
    }
}

#[test]
fn default_settings() {
    let settings = WorkerSettings::default();
    assert_eq!(settings.log_level, WorkerLogLevel::Debug);
    assert_eq!(settings.log_tags.len(), 13);
    assert_eq!(settings.log_tags[0], WorkerLogTag::Info);
    assert_eq!(settings.log_tags[12], WorkerLogTag::Message);
    assert_eq!(settings.rtc_ports_range, 10000..=59999);
    assert!(settings.dtls_files.is_none());
    assert!(settings.libwebrtc_field_trials.is_none());
}

#[test]
fn spawn_args_of_default_settings() {
    let args = WorkerSettings::default().spawn_args().unwrap();
    let expected = vec![
        "",
        "--logLevel=debug",
        "--logTag=info",
        "--logTag=ice",
        "--logTag=dtls",
        "--logTag=rtp",
        "--logTag=srtp",
        "--logTag=rtcp",
        "--logTag=rtx",
        "--logTag=bwe",
        "--logTag=score",
        "--logTag=simulcast",
        "--logTag=svc",
        "--logTag=sctp",
        "--logTag=message",
        "--rtcMinPort=10000",
        "--rtcMaxPort=59999",
    ];
    assert_eq!(args, expected);
}

#[test]
fn spawn_args_with_everything() {
    let mut settings = WorkerSettings::default();
    settings.log_level = WorkerLogLevel::Off;
    settings.log_tags = vec![WorkerLogTag::Rtx];
    settings.rtc_ports_range = 0..=65535;
    settings.dtls_files = Some(WorkerDtlsFiles {
        certificate: "/etc/cert.pem".to_string(),
        private_key: "/etc/key.pem".to_string(),
    });
    settings.libwebrtc_field_trials = Some("WebRTC-Bwe-AlrLimitedBackoff/Enabled/".to_string());
    let args = settings.spawn_args().unwrap();
    let expected = vec![
        "",
        "--logLevel=none",
        "--logTag=rtx",
        "--rtcMinPort=0",
        "--rtcMaxPort=65535",
        "--dtlsCertificateFile=/etc/cert.pem",
        "--dtlsPrivateKeyFile=/etc/key.pem",
        "--libwebrtcFieldTrials=WebRTC-Bwe-AlrLimitedBackoff/Enabled/",
    ];
    assert_eq!(args, expected);
}

#[test]
fn spawn_args_with_one_port() {
    let mut settings = WorkerSettings::default();
    settings.log_tags = Vec::new();
    settings.rtc_ports_range = 4000..=4000;
    let args = settings.spawn_args().unwrap();
    assert_eq!(args, vec!["", "--logLevel=debug", "--rtcMinPort=4000", "--rtcMaxPort=4000"]);
}

#[test]
fn empty_port_range_is_refused() {
    let mut settings = WorkerSettings::default();
    settings.rtc_ports_range = 20000..=19999;
    let error = settings.spawn_args().unwrap_err();
    assert_eq!(error.kind, StartErrorKind::InvalidInput);
    assert_eq!(error.message, "Invalid RTC ports range");
}

#[test]
fn exhausted_port_range_is_refused() {
    let mut range = 7..=8u16;
    while range.next().is_some() {}
    let mut settings = WorkerSettings::default();
    settings.rtc_ports_range = range;
    let error = settings.spawn_args().unwrap_err();
    assert_eq!(error.kind, StartErrorKind::InvalidInput);
}

#[test]
fn update_settings_default_is_empty() {
    let fields = WorkerUpdateSettings::default().request_fields();
    assert_eq!(fields.log_level, None);
    assert_eq!(fields.log_tags, None);
}

#[test]
fn update_settings_carries_only_what_is_present() {
    let mut update = WorkerUpdateSettings::default();
    update.log_level = Some(WorkerLogLevel::Warn);
    let fields = update.request_fields();
    assert_eq!(fields.log_level, Some("warn".to_string()));
    assert_eq!(fields.log_tags, None);

    let mut update = WorkerUpdateSettings::default();
    update.log_tags = Some(vec![WorkerLogTag::Ice, WorkerLogTag::Sctp]);
    let fields = update.request_fields();
    assert_eq!(fields.log_level, None);
    assert_eq!(fields.log_tags, Some(vec!["ice".to_string(), "sctp".to_string()]));

    let mut update = WorkerUpdateSettings::default();
    update.log_tags = Some(Vec::new());
    assert_eq!(update.request_fields().log_tags, Some(Vec::new()));
}

#[test]
fn decimal_text() {
    assert_eq!(decimal_string(0), "0");
    assert_eq!(decimal_string(7), "7");
    assert_eq!(decimal_string(10), "10");
    assert_eq!(decimal_string(65535), "65535");
    assert_eq!(decimal_string(u64::MAX), "18446744073709551615");
}

#[test]
fn signed_decimal_text() {
    assert_eq!(signed_decimal_string(0), "0");
    assert_eq!(signed_decimal_string(42), "42");
    assert_eq!(signed_decimal_string(-1), "-1");
    assert_eq!(signed_decimal_string(-2147483648), "-2147483648");
    assert_eq!(signed_decimal_string(i64::MIN), "-9223372036854775808");
    assert_eq!(signed_decimal_string(i64::MAX), "9223372036854775807");
}

#[test]
fn joined_text() {
    assert_eq!(joined("--logTag=", "ice"), "--logTag=ice");
    assert_eq!(joined("", ""), "");
}
