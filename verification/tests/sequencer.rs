use porky_mdns::address::Ipv4Address;
use porky_mdns::errors::JoinError;
use porky_mdns::sequencer::{
    join, JoinOutcome, PollSample, WirelessCredentials, DEFAULT_MAX_ATTEMPTS,
};

fn credentials(security: &str) -> WirelessCredentials {
    WirelessCredentials {
        ssid: String::from("testnet"),
        passphrase: String::from("secret"),
        security: String::from(security),
    }
}

fn addr(a: u8, b: u8, c: u8, d: u8) -> Ipv4Address {
    Ipv4Address { octets: [a, b, c, d] }
}

fn configured(ip: Ipv4Address) -> PollSample {
    PollSample { configured: true, address: Some(ip) }
}

fn not_configured() -> PollSample {
    PollSample { configured: false, address: None }
}

#[test]
fn unsupported_security_makes_zero_attempts() {
    let run = join(&credentials("wep"), &vec![true, true, true], &vec![], 3);
    assert_eq!(run.attempts, 0);
    assert_eq!(run.polls_seen, 0);
    assert_eq!(
        run.outcome,
        JoinOutcome::Completed(Err(JoinError::UnsupportedSecurity))
    );
}

#[test]
fn always_failing_link_exhausts_exactly_three_attempts() {
    let run = join(
        &credentials("wpa2"),
        &vec![false, false, false],
        &vec![configured(addr(10, 0, 0, 9))],
        DEFAULT_MAX_ATTEMPTS,
    );
    assert_eq!(run.attempts, 3);
    assert_eq!(run.polls_seen, 0);
    assert_eq!(
        run.outcome,
        JoinOutcome::Completed(Err(JoinError::RetriesExhausted))
    );
}

#[test]
fn succeeds_on_third_attempt_with_no_further_attempts() {
    let ip = addr(192, 168, 1, 7);
    let run = join(
        &credentials("wpa2"),
        &vec![false, false, true],
        &vec![configured(ip)],
        3,
    );
    assert_eq!(run.attempts, 3);
    assert_eq!(run.outcome, JoinOutcome::Completed(Ok(ip)));
}

#[test]
fn first_attempt_success_stops_the_retry_loop() {
    let ip = addr(10, 1, 2, 3);
    let run = join(
        &credentials("open"),
        &vec![true, false, false],
        &vec![configured(ip)],
        3,
    );
    assert_eq!(run.attempts, 1);
    assert_eq!(run.outcome, JoinOutcome::Completed(Ok(ip)));
}

#[test]
fn address_returned_only_after_all_polls_observed() {
    let ip = addr(172, 16, 0, 2);
    let polls = vec![
        not_configured(),
        not_configured(),
        not_configured(),
        not_configured(),
        configured(ip),
    ];
    let run = join(&credentials("wpa2"), &vec![true], &polls, 1);
    assert_eq!(run.attempts, 1);
    assert_eq!(run.polls_seen, 5);
    assert_eq!(run.outcome, JoinOutcome::Completed(Ok(ip)));
}

#[test]
fn wait_goes_on_while_nothing_is_configured() {
    let polls = vec![not_configured(), not_configured()];
    let run = join(&credentials("wpa2"), &vec![true], &polls, 1);
    assert_eq!(run.polls_seen, 2);
    assert_eq!(run.outcome, JoinOutcome::AwaitingAddress);
}

#[test]
fn configured_without_address_is_an_error() {
    let polls = vec![
        not_configured(),
        PollSample { configured: true, address: None },
    ];
    let run = join(&credentials("wpa2"), &vec![true], &polls, 1);
    assert_eq!(run.polls_seen, 2);
    assert_eq!(
        run.outcome,
        JoinOutcome::Completed(Err(JoinError::AddressConfigMissing))
    );
}
