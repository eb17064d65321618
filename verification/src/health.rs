//! The health of the certificate, by the days until it expires.

use vstd::prelude::*;
use vstd::string::*;
use crate::outside;
use crate::proxy::TextReply;

verus! {

/// A time, in seconds and nanoseconds since the start of 1970 in UTC.
#[derive(Debug, Clone, Copy)]
pub struct Timestamp {
    pub secs: i64,
    pub nanos: u32,
}

impl Timestamp {
    /// A time that is no leap second and lies within some hundred thousand years of 1970.
    pub open spec fn is_plain(self) -> bool {
        outside::is_plain_time(self.secs, self.nanos)
    }

    /// The nanoseconds since the start of 1970.
    pub open spec fn in_nanos(self) -> int {
        self.secs * 1_000_000_000 + self.nanos
    }
}

/// What is known of the certificate.
#[derive(Debug)]
pub enum Metadata {
    /// Its metadata file cannot be read.
    Missing,
    /// Its metadata file holds no metadata.
    Malformed,
    /// The metadata, as far as its health goes.
    Known { domain: String, expires_at: Timestamp },
}

/// How urgent it is to renew the certificate.
#[derive(Debug, Clone, Copy, PartialEq, Eq, Structural)]
pub enum CertStatus {
    Healthy,
    RenewingSoon,
    Critical,
}

impl CertStatus {
    /// The status of a certificate with so many days left.
    pub open spec fn of_days(days: int) -> CertStatus {
        if days > 30 {
            CertStatus::Healthy
        } else if days > 7 {
            CertStatus::RenewingSoon
        } else {
            CertStatus::Critical
        }
    }

    /// The urgency of a status, higher being worse.
    pub open spec fn urgency(self) -> int {
        match self {
            CertStatus::Healthy => 0,
            CertStatus::RenewingSoon => 1,
            CertStatus::Critical => 2,
        }
    }

    /// The status of a certificate with so many days left.
    pub fn from_days(days: i64) -> (status: CertStatus)
        ensures
            status == CertStatus::of_days(days as int),
    {
        if days > 30 {
            CertStatus::Healthy
        } else if days > 7 {
            CertStatus::RenewingSoon
        } else {
            CertStatus::Critical
        }
    }

    /// The name of the status.
    pub fn name(&self) -> (text: &'static str)
        ensures
            text@ == match *self {
                CertStatus::Healthy => "healthy"@,
                CertStatus::RenewingSoon => "renewing_soon"@,
                CertStatus::Critical => "critical"@,
            },
    {
        match self {
            CertStatus::Healthy => "healthy",
            CertStatus::RenewingSoon => "renewing_soon",
            CertStatus::Critical => "critical",
        }
    }
}

/// A report on the certificate.
#[derive(Debug)]
pub struct CertReport {
    pub status: CertStatus,
    pub domain: String,
    pub expires_at: Timestamp,
    pub days_until_expiry: i64,
}

/// What a request for the certificate's health is answered.
#[derive(Debug)]
pub enum HealthReply {
    Report(CertReport),
    Text(TextReply),
}

/// What a request for the certificate's health is answered, given the days until it expires, or
/// none where the metadata's time is none.
pub open spec fn is_health_reply(metadata: Metadata, days: Option<i64>, reply: HealthReply) -> bool {
    match metadata {
        Metadata::Missing => reply matches HealthReply::Text(answer) && answer.status == 503
            && answer.body@ == "No certificate found"@,
        Metadata::Malformed => reply matches HealthReply::Text(answer) && answer.status == 500
            && answer.body@ == "Failed to parse metadata"@,
        Metadata::Known { domain, expires_at } => match days {
            Some(left) => reply matches HealthReply::Report(report) && {
                &&& report.status == CertStatus::of_days(left as int)
                &&& report.domain@ == domain@
                &&& report.expires_at == expires_at
                &&& report.days_until_expiry == left
            },
            None => reply matches HealthReply::Text(answer) && answer.status == 500 && answer.body@
                == "Failed to parse metadata"@,
        },
    }
}

fn text_reply(status: u16, body: &str) -> (reply: HealthReply)
    ensures
        reply matches HealthReply::Text(answer) && answer.status == status && answer.body@ == body@,
{
    HealthReply::Text(TextReply { status, body: body.to_owned() })
}

/// Answers a request for the certificate's health, given the days until it expires.
pub fn health_reply(metadata: Metadata, days: Option<i64>) -> (reply: HealthReply)
    ensures
        is_health_reply(metadata, days, reply),
{
    match metadata {
        Metadata::Missing => text_reply(503, "No certificate found"),
        Metadata::Malformed => text_reply(500, "Failed to parse metadata"),
        Metadata::Known { domain, expires_at } => match days {
            Some(left) => HealthReply::Report(
                CertReport {
                    status: CertStatus::from_days(left),
                    domain,
                    expires_at,
                    days_until_expiry: left,
                },
            ),
            None => text_reply(500, "Failed to parse metadata"),
        },
    }
}

/// The days from now until the certificate expires.
pub open spec fn days_left(metadata: Metadata, now: Timestamp) -> Option<i64> {
    match metadata {
        Metadata::Known { expires_at, .. } => outside::chrono_days(
            expires_at.secs,
            expires_at.nanos,
            now.secs,
            now.nanos,
        ),
        _ => None,
    }
}

/// Answers a request for the certificate's health.
pub fn handler_cert_health(metadata: Metadata, now: Timestamp) -> (reply: HealthReply)
    ensures
        is_health_reply(metadata, days_left(metadata, now), reply),
        metadata matches Metadata::Known { expires_at, .. } ==> expires_at.is_plain() && now.is_plain()
            ==> days_left(metadata, now) is Some && days_left(metadata, now)->0 == outside::whole_days(
            expires_at.in_nanos() - now.in_nanos(),
        ),
{
    let days: Option<i64> = match &metadata {
        Metadata::Known { expires_at, .. } => {
            let left = outside::days_between(expires_at.secs, expires_at.nanos, now.secs, now.nanos);
            assert((expires_at.secs - now.secs) * 1_000_000_000 + expires_at.nanos - now.nanos
                == expires_at.in_nanos() - now.in_nanos());
            left
        },
        _ => None,
    };
    health_reply(metadata, days)
}

/// The components of the path of the metadata file.
pub fn metadata_path() -> (path: Vec<String>)
    ensures
        crate::tls::texts(path@) == seq!["certs/"@, "cert_metadata.json"@],
{
    let mut path: Vec<String> = Vec::new();
    path.push("certs/".to_owned());
    path.push("cert_metadata.json".to_owned());
    assert(crate::tls::texts(path@) =~= seq!["certs/"@, "cert_metadata.json"@]);
    path
}

// ---------------------------------------------------------------------------
// Laws
// ---------------------------------------------------------------------------

/// Fewer days left never make the status better.
pub proof fn law_fewer_days_no_better(fewer: int, more: int)
    requires
        fewer <= more,
    ensures
        CertStatus::of_days(fewer).urgency() >= CertStatus::of_days(more).urgency(),
{
}

/// A certificate that has expired is reported as critical, with no day left.
pub proof fn law_expired_is_critical(expires_at: Timestamp, now: Timestamp)
    requires
        expires_at.in_nanos() <= now.in_nanos(),
    ensures
        outside::whole_days(expires_at.in_nanos() - now.in_nanos()) <= 0,
        CertStatus::of_days(outside::whole_days(expires_at.in_nanos() - now.in_nanos()))
            == CertStatus::Critical,
{
}

/// As time goes by, the days that are left do not grow.
pub proof fn law_days_do_not_grow(expires_at: Timestamp, now: Timestamp, after: Timestamp)
    requires
        now.in_nanos() <= after.in_nanos(),
    ensures
        outside::whole_days(expires_at.in_nanos() - after.in_nanos()) <= outside::whole_days(
            expires_at.in_nanos() - now.in_nanos(),
        ),
{
}

/// A certificate is healthy with more than thirty days left, to be renewed soon with more than seven,
/// and critical else.
pub proof fn law_status_by_days(days: int)
    ensures
        CertStatus::of_days(days) == CertStatus::Healthy <==> days > 30,
        CertStatus::of_days(days) == CertStatus::RenewingSoon <==> 7 < days <= 30,
        CertStatus::of_days(days) == CertStatus::Critical <==> days <= 7,
{
}

/// Known metadata is reported with its domain, its time, the days that are left, and the status that
/// goes with them; metadata that is missing or cannot be read is answered with an error.
pub proof fn law_health_answers(metadata: Metadata, days: Option<i64>, reply: HealthReply)
    requires
        is_health_reply(metadata, days, reply),
    ensures
        metadata is Missing ==> (reply matches HealthReply::Text(answer) && answer.status == 503
            && answer.body@ == "No certificate found"@),
        metadata is Malformed ==> (reply matches HealthReply::Text(answer) && answer.status == 500
            && answer.body@ == "Failed to parse metadata"@),
        metadata is Known && days is Some ==> (reply matches HealthReply::Report(report) && {
            &&& report.domain@ == metadata->domain@
            &&& report.expires_at == metadata->expires_at
            &&& report.days_until_expiry == days->0
            &&& report.status == CertStatus::Healthy <==> days->0 > 30
            &&& report.status == CertStatus::RenewingSoon <==> 7 < days->0 <= 30
            &&& report.status == CertStatus::Critical <==> days->0 <= 7
        }),
        metadata is Known && days is None ==> (reply matches HealthReply::Text(answer) && answer.status
            == 500 && answer.body@ == "Failed to parse metadata"@),
{
}

/// The days that are left are counted from now to the time at which the certificate expires.
pub proof fn law_days_are_counted_from_now(domain: String, expires_at: Timestamp, now: Timestamp)
    ensures
        days_left(Metadata::Known { domain, expires_at }, now) == outside::chrono_days(
            expires_at.secs,
            expires_at.nanos,
            now.secs,
            now.nanos,
        ),
        expires_at.in_nanos() == expires_at.secs * 1_000_000_000 + expires_at.nanos,
{
}

/// Whole days hold 86400 seconds each; what is left over is less than a day, and a span that runs
/// backwards has as many days as the same span forwards.
pub proof fn law_whole_days(nanos: int)
    ensures
        nanos >= 0 ==> 0 <= nanos - outside::whole_days(nanos) * 86_400_000_000_000 < 86_400_000_000_000,
        nanos >= 0 ==> outside::whole_days(nanos) >= 0,
        nanos < 0 ==> outside::whole_days(nanos) == -outside::whole_days(-nanos),
{
}

} // verus!
