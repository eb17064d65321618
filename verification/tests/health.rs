use http_server::health::{
    handler_cert_health, health_reply, metadata_path, CertStatus, HealthReply, Metadata, Timestamp,
};

const DAY: i64 = 86_400;

fn known(secs: i64, nanos: u32) -> Metadata {
    Metadata::Known {
        domain: "example.com".to_string(),
        expires_at: Timestamp { secs, nanos },
    }
}

fn at(secs: i64, nanos: u32) -> Timestamp {
    Timestamp { secs, nanos }
}

fn report(metadata: Metadata, now: Timestamp) -> (CertStatus, i64) {
    match handler_cert_health(metadata, now) {
        HealthReply::Report(report) => {
            assert_eq!(report.domain, "example.com");
            (report.status, report.days_until_expiry)
        }
        HealthReply::Text(answer) => panic!("{}", answer.body),
    }
}

fn text(reply: HealthReply) -> (u16, String) {
    match reply {
        HealthReply::Text(answer) => (answer.status, answer.body),
        HealthReply::Report(_) => panic!("there is nothing to report"),
    }
}

#[test]
fn status_by_days() {
    assert_eq!(report(known(90 * DAY, 0), at(0, 0)), (CertStatus::Healthy, 90));
    assert_eq!(report(known(31 * DAY, 0), at(0, 0)), (CertStatus::Healthy, 31));
    assert_eq!(report(known(31 * DAY, 0), at(0, 1)), (CertStatus::RenewingSoon, 30));
    assert_eq!(report(known(8 * DAY, 0), at(0, 0)), (CertStatus::RenewingSoon, 8));
    assert_eq!(report(known(8 * DAY, 0), at(1, 0)), (CertStatus::Critical, 7));
    assert_eq!(report(known(0, 0), at(0, 0)), (CertStatus::Critical, 0));
}

#[test]
fn days_of_an_expired_certificate() {
    assert_eq!(report(known(0, 0), at(DAY - 1, 999_999_999)), (CertStatus::Critical, 0));
    assert_eq!(report(known(0, 0), at(DAY, 0)), (CertStatus::Critical, -1));
    assert_eq!(report(known(0, 1), at(DAY, 0)), (CertStatus::Critical, 0));
    assert_eq!(report(known(-10 * DAY, 0), at(30 * DAY, 5)), (CertStatus::Critical, -40));
}

#[test]
fn days_do_not_grow() {
    let mut last = i64::MAX;
    for now in 0..200 {
        let (_, days) = report(known(3 * DAY, 7), at(now * 3_600, 0));
        assert!(days <= last);
        last = days;
    }
}

#[test]
fn leap_second_of_a_certificate() {
    assert_eq!(report(known(59, 1_500_000_000), at(59, 0)), (CertStatus::Critical, 0));
}

#[test]
fn nothing_to_report() {
    assert_eq!(
        text(handler_cert_health(Metadata::Missing, at(0, 0))),
        (503, "No certificate found".to_string())
    );
    assert_eq!(
        text(handler_cert_health(Metadata::Malformed, at(0, 0))),
        (500, "Failed to parse metadata".to_string())
    );
    assert_eq!(
        text(handler_cert_health(known(i64::MAX, 0), at(0, 0))),
        (500, "Failed to parse metadata".to_string())
    );
    assert_eq!(
        text(health_reply(known(0, 0), None)),
        (500, "Failed to parse metadata".to_string())
    );
}

#[test]
fn names_of_the_statuses() {
    assert_eq!(CertStatus::from_days(31).name(), "healthy");
    assert_eq!(CertStatus::from_days(30).name(), "renewing_soon");
    assert_eq!(CertStatus::from_days(7).name(), "critical");
    assert_eq!(CertStatus::from_days(i64::MIN).name(), "critical");
}

#[test]
fn path_of_the_metadata() {
    assert_eq!(metadata_path(), vec!["certs/", "cert_metadata.json"]);
}
