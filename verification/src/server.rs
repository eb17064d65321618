//! The life of the server: its background tasks, its accept loop, and how it drains connections
//! when it stops.

use vstd::prelude::*;
use vstd::string::*;
use crate::proxy::Variable;

verus! {

// ---------------------------------------------------------------------------
// Background tasks
// ---------------------------------------------------------------------------

/// Whether the server renews its certificate itself. It does not where `TLS_CERT_PATH` is set:
/// the certificate is then managed by somebody else.
pub fn use_builtin_acme(tls_cert_path: &Variable) -> (renews: bool)
    ensures
        renews == (tls_cert_path is NotPresent),
{
    match tls_cert_path {
        Variable::Present(_) => false,
        Variable::NotPresent => true,
        Variable::NotUnicode => false,
    }
}

// ---------------------------------------------------------------------------
// ACME challenges
// ---------------------------------------------------------------------------

/// The components of the path of the file that answers a challenge.
pub fn challenge_path(token: &str) -> (path: Vec<String>)
    ensures
        crate::tls::texts(path@) == seq!["certs/"@, ".well-known"@, "acme-challenge"@, token@],
{
    let mut path: Vec<String> = Vec::new();
    path.push("certs/".to_owned());
    path.push(".well-known".to_owned());
    path.push("acme-challenge".to_owned());
    path.push(token.to_owned());
    assert(crate::tls::texts(path@) =~= seq![
        "certs/"@,
        ".well-known"@,
        "acme-challenge"@,
        token@,
    ]);
    path
}

/// What a challenge is answered: the contents of its file, or a 404 where that could not be read.
pub fn handle_acme_challenge(contents: Option<String>) -> (answer: Result<String, u16>)
    ensures
        answer == match contents {
            Some(text) => Ok::<String, u16>(text),
            None => Err::<String, u16>(404),
        },
{
    match contents {
        Some(text) => Ok(text),
        None => Err(404),
    }
}

// ---------------------------------------------------------------------------
// Accepting and draining
// ---------------------------------------------------------------------------

/// What the accept loop was woken by.
#[derive(Debug, Clone, Copy, PartialEq, Eq, Structural)]
pub enum AcceptEvent {
    /// The server was told to shut down.
    Shutdown,
    /// SIGTERM, with which Kubernetes stops a pod.
    Terminated,
    /// A client connected.
    Connected,
    /// A connection could not be accepted.
    Failed,
}

/// What the accept loop does.
#[derive(Debug, Clone, Copy, PartialEq, Eq, Structural)]
pub enum AcceptStep {
    /// Accept no more, and drain.
    Stop,
    /// Count the connection and serve it.
    Serve,
    /// Go on accepting.
    Continue,
}

/// Decides what the accept loop does.
pub fn accept_step(event: AcceptEvent) -> (step: AcceptStep)
    ensures
        step is Stop <==> event is Shutdown || event is Terminated,
        step is Serve <==> event is Connected,
        step is Continue <==> event is Failed,
{
    match event {
        AcceptEvent::Shutdown => AcceptStep::Stop,
        AcceptEvent::Terminated => AcceptStep::Stop,
        AcceptEvent::Connected => AcceptStep::Serve,
        AcceptEvent::Failed => AcceptStep::Continue,
    }
}

/// How long a TLS handshake may take, in seconds.
pub const HANDSHAKE_TIMEOUT_SECS: u64 = 10;

/// How long a connection may be served, in seconds.
pub const CONNECTION_TIMEOUT_SECS: u64 = 60;

/// How a stage of a connection ended that has a time limit.
#[derive(Debug)]
pub enum Outcome {
    Done,
    Failed(String),
    TimedOut,
}

/// Decides what becomes of a connection after its TLS handshake: it is served, within so many
/// seconds, or closed with an error.
pub fn after_handshake(outcome: Outcome) -> (step: Result<u64, String>)
    ensures
        match outcome {
            Outcome::Done => step == Ok::<u64, String>(CONNECTION_TIMEOUT_SECS),
            Outcome::Failed(cause) => step == Err::<u64, String>(cause),
            Outcome::TimedOut => step matches Err(error) && error@ == "TLS handshake timeout"@,
        },
{
    match outcome {
        Outcome::Done => Ok(CONNECTION_TIMEOUT_SECS),
        Outcome::Failed(cause) => Err(cause),
        Outcome::TimedOut => Err("TLS handshake timeout".to_owned()),
    }
}

/// Decides how a connection is closed after it was served: cleanly or with an error.
pub fn after_serving(outcome: Outcome) -> (end: Result<(), String>)
    ensures
        match outcome {
            Outcome::Done => end is Ok,
            Outcome::Failed(cause) => end == Err::<(), String>(cause),
            Outcome::TimedOut => end matches Err(error) && error@ == "Connection timeout"@,
        },
{
    match outcome {
        Outcome::Done => Ok(()),
        Outcome::Failed(cause) => Err(cause),
        Outcome::TimedOut => Err("Connection timeout".to_owned()),
    }
}

/// How long a stopping server waits for its connections, in milliseconds.
pub const SHUTDOWN_TIMEOUT_MS: u64 = 30_000;

/// How long it waits before it looks at them again, in milliseconds.
pub const DRAIN_POLL_MS: u64 = 100;

/// What a stopping server does.
#[derive(Debug, Clone, Copy, PartialEq, Eq, Structural)]
pub enum DrainStep {
    /// No connection is left: stop.
    Drained,
    /// The time is up: stop, though so many connections are left.
    TimedOut { active: usize },
    /// Wait so many milliseconds, and look again.
    Wait { millis: u64 },
}

/// What a stopping server does that has waited so long and has so many connections left.
pub open spec fn drain_decision(active: usize, waited_ms: u64) -> DrainStep {
    if active == 0 {
        DrainStep::Drained
    } else if waited_ms >= SHUTDOWN_TIMEOUT_MS {
        DrainStep::TimedOut { active }
    } else if SHUTDOWN_TIMEOUT_MS - waited_ms < DRAIN_POLL_MS {
        DrainStep::Wait { millis: (SHUTDOWN_TIMEOUT_MS - waited_ms) as u64 }
    } else {
        DrainStep::Wait { millis: DRAIN_POLL_MS }
    }
}

/// Decides what a stopping server does that has waited so long and has so many connections left.
pub fn drain_step(active: usize, waited_ms: u64) -> (step: DrainStep)
    ensures
        step == drain_decision(active, waited_ms),
{
    if active == 0 {
        DrainStep::Drained
    } else if waited_ms >= SHUTDOWN_TIMEOUT_MS {
        DrainStep::TimedOut { active }
    } else if SHUTDOWN_TIMEOUT_MS - waited_ms < DRAIN_POLL_MS {
        DrainStep::Wait { millis: SHUTDOWN_TIMEOUT_MS - waited_ms }
    } else {
        DrainStep::Wait { millis: DRAIN_POLL_MS }
    }
}

// ---------------------------------------------------------------------------
// Laws
// ---------------------------------------------------------------------------

/// How a drain ends that has waited so long, where `active` says how many connections are left
/// after so many milliseconds.
pub open spec fn drain_end(active: spec_fn(u64) -> usize, waited_ms: u64) -> DrainStep
    decreases SHUTDOWN_TIMEOUT_MS - waited_ms,
{
    match drain_decision(active(waited_ms), waited_ms) {
        DrainStep::Wait { millis } => if waited_ms < SHUTDOWN_TIMEOUT_MS && millis > 0 {
            drain_end(active, (waited_ms + millis) as u64)
        } else {
            DrainStep::Wait { millis }
        },
        step => step,
    }
}

/// A stopping server waits for its connections, yet never past its time limit.
pub proof fn law_drain_is_bounded(active: usize, waited_ms: u64)
    ensures
        drain_decision(active, waited_ms) is Drained <==> active == 0,
        drain_decision(active, waited_ms) matches DrainStep::Wait { millis } ==> 0 < millis && waited_ms
            + millis <= SHUTDOWN_TIMEOUT_MS,
        waited_ms >= SHUTDOWN_TIMEOUT_MS ==> !(drain_decision(active, waited_ms) is Wait),
{
}

/// A drain ends at a time at which no connection is left, or else with the time up and connections
/// left, having seen some each time it looked.
pub proof fn law_drain_ends(active: spec_fn(u64) -> usize, waited_ms: u64)
    ensures
        !(drain_end(active, waited_ms) is Wait),
        drain_end(active, waited_ms) matches DrainStep::TimedOut { active: left } ==> left > 0,
        drain_end(active, waited_ms) is TimedOut ==> forall|t: u64|
            waited_ms <= t < SHUTDOWN_TIMEOUT_MS && t % DRAIN_POLL_MS == waited_ms % DRAIN_POLL_MS
                ==> #[trigger] active(t) > 0,
        drain_end(active, waited_ms) is Drained ==> exists|t: u64|
            waited_ms <= t && (t == waited_ms || t <= SHUTDOWN_TIMEOUT_MS) && #[trigger] active(t) == 0,
    decreases SHUTDOWN_TIMEOUT_MS - waited_ms,
{
    law_drain_is_bounded(active(waited_ms), waited_ms);
    if let DrainStep::Wait { millis } = drain_decision(active(waited_ms), waited_ms) {
        law_drain_ends(active, (waited_ms + millis) as u64);
    }
}

/// The time limits: a handshake has ten seconds, a connection a minute, and a stopping server waits
/// half a minute for its connections, looking at them ten times a second.
pub proof fn law_time_limits()
    ensures
        HANDSHAKE_TIMEOUT_SECS == 10,
        CONNECTION_TIMEOUT_SECS == 60,
        SHUTDOWN_TIMEOUT_MS == 30_000,
        DRAIN_POLL_MS == 100,
{
}

/// A stopping server stops at once without connections; with some it gives up after half a minute,
/// saying how many are left, and until then waits a tenth of a second, or what is left of its time
/// where that is less.
pub proof fn law_drain_by_the_clock(active: usize, waited_ms: u64)
    ensures
        active == 0 ==> drain_decision(active, waited_ms) == DrainStep::Drained,
        active > 0 && waited_ms >= 30_000 ==> drain_decision(active, waited_ms) == (DrainStep::TimedOut {
            active,
        }),
        active > 0 && waited_ms <= 29_900 ==> drain_decision(active, waited_ms) == (DrainStep::Wait {
            millis: 100,
        }),
        active > 0 && 29_900 < waited_ms < 30_000 ==> drain_decision(active, waited_ms) == (
        DrainStep::Wait { millis: (30_000 - waited_ms) as u64 }),
{
}

} // verus!
