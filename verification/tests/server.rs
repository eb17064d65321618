use http_server::proxy::Variable;
use http_server::server::{
    accept_step, after_handshake, after_serving, challenge_path, drain_step, handle_acme_challenge,
    use_builtin_acme, AcceptEvent, AcceptStep, DrainStep, Outcome, CONNECTION_TIMEOUT_SECS,
    HANDSHAKE_TIMEOUT_SECS,
};

#[test]
fn renewal_is_skipped_for_external_certificates() {
    assert!(!use_builtin_acme(&Variable::Present("/certs/cert.pem".to_string())));
    assert!(!use_builtin_acme(&Variable::Present(String::new())));
    assert!(use_builtin_acme(&Variable::NotPresent));
    assert!(!use_builtin_acme(&Variable::NotUnicode));
}

#[test]
fn challenges() {
    assert_eq!(challenge_path("abc"), vec!["certs/", ".well-known", "acme-challenge", "abc"]);
    assert_eq!(handle_acme_challenge(Some("abc.key".to_string())), Ok("abc.key".to_string()));
    assert_eq!(handle_acme_challenge(None), Err(404));
}

#[test]
fn accept_loop() {
    assert_eq!(accept_step(AcceptEvent::Shutdown), AcceptStep::Stop);
    assert_eq!(accept_step(AcceptEvent::Terminated), AcceptStep::Stop);
    assert_eq!(accept_step(AcceptEvent::Connected), AcceptStep::Serve);
    assert_eq!(accept_step(AcceptEvent::Failed), AcceptStep::Continue);
}

#[test]
fn connection_stages() {
    assert_eq!(HANDSHAKE_TIMEOUT_SECS, 10);
    assert_eq!(CONNECTION_TIMEOUT_SECS, 60);
    assert_eq!(after_handshake(Outcome::Done), Ok(60));
    assert_eq!(after_handshake(Outcome::Failed("bad".to_string())), Err("bad".to_string()));
    assert_eq!(after_handshake(Outcome::TimedOut), Err("TLS handshake timeout".to_string()));
    assert_eq!(after_serving(Outcome::Done), Ok(()));
    assert_eq!(after_serving(Outcome::Failed("cut".to_string())), Err("cut".to_string()));
    assert_eq!(after_serving(Outcome::TimedOut), Err("Connection timeout".to_string()));
}

#[test]
fn drain_steps() {
    assert_eq!(drain_step(0, 0), DrainStep::Drained);
    assert_eq!(drain_step(0, 40_000), DrainStep::Drained);
    assert_eq!(drain_step(2, 0), DrainStep::Wait { millis: 100 });
    assert_eq!(drain_step(2, 29_950), DrainStep::Wait { millis: 50 });
    assert_eq!(drain_step(2, 30_000), DrainStep::TimedOut { active: 2 });
}

#[test]
fn drain_ends_in_time() {
    let mut waited: u64 = 0;
    let mut polls = 0;
    loop {
        match drain_step(1, waited) {
            DrainStep::Wait { millis } => waited += millis,
            DrainStep::TimedOut { active } => {
                assert_eq!(active, 1);
                break;
            }
            DrainStep::Drained => panic!("a connection is left"),
        }
        polls += 1;
    }
    assert_eq!(waited, 30_000);
    assert_eq!(polls, 300);
}
