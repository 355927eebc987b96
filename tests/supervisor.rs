use wifi_node::provisioning::{handle_setup, Credentials, HandoffSlot};
use wifi_node::supervisor::{
    Action, ConnectionState, Event, FailReason, Supervisor, LEASE_POLL_MS, LEASE_TIMEOUT_MS,
};
use wifi_node::telemetry::{payload, Reading};

fn creds(id: &str, secret: &str) -> Credentials {
    Credentials { network_id: id.to_string(), secret: secret.to_string() }
}

fn poll(address: u32, elapsed_ms: u64) -> Event {
    Event::LeasePoll { address, elapsed_ms }
}

fn joining() -> Supervisor {
    let (mut sup, a) = Supervisor::boot(None);
    assert_eq!(a, Action::StartAccessPoint);
    assert_eq!(sup.step(Event::CredentialsReceived(creds("HomeNet", "pw"))), Action::Join);
    sup
}

#[test]
fn boots_into_provisioning_without_credentials() {
    let (sup, a) = Supervisor::boot(None);
    assert_eq!(a, Action::StartAccessPoint);
    assert!(matches!(sup.state(), ConnectionState::Provisioning));
    assert!(sup.joining_credentials().is_none());
}

#[test]
fn boots_into_joining_with_stored_credentials() {
    let (sup, a) = Supervisor::boot(Some(creds("Stored", "pw")));
    assert_eq!(a, Action::Join);
    assert_eq!(sup.joining_credentials().unwrap().network_id, "Stored");
}

#[test]
fn stored_credentials_without_ssid_start_provisioning() {
    let (sup, a) = Supervisor::boot(Some(creds("", "pw")));
    assert_eq!(a, Action::StartAccessPoint);
    assert!(matches!(sup.state(), ConnectionState::Provisioning));
}

#[test]
fn invalid_credentials_keep_waiting() {
    let (mut sup, _) = Supervisor::boot(None);
    assert_eq!(sup.step(Event::CredentialsReceived(creds("", "x"))), Action::AwaitCredentials);
    assert!(matches!(sup.state(), ConnectionState::Provisioning));
    assert_eq!(sup.step(Event::Proceed), Action::AwaitCredentials);
}

#[test]
fn lease_within_timeout_connects() {
    let mut sup = joining();
    assert_eq!(sup.joining_credentials().unwrap().network_id, "HomeNet");
    let mut t = 0;
    while t < 2000 {
        assert_eq!(sup.step(poll(0, t)), Action::PollLease);
        t += LEASE_POLL_MS;
    }
    assert_eq!(sup.step(poll(0xC0A8_0142, t)), Action::CheckConnectivity);
    assert!(matches!(sup.state(), ConnectionState::Connected(l) if l.address == 0xC0A8_0142));
}

#[test]
fn lease_at_the_deadline_still_connects() {
    let mut sup = joining();
    assert_eq!(sup.step(poll(0, LEASE_TIMEOUT_MS)), Action::PollLease);
    assert_eq!(sup.step(poll(1, LEASE_TIMEOUT_MS)), Action::CheckConnectivity);
}

#[test]
fn no_lease_within_timeout_falls_back_to_provisioning() {
    let mut sup = joining();
    assert_eq!(sup.step(poll(0, 19_750)), Action::PollLease);
    assert_eq!(sup.step(poll(0, 20_000)), Action::PollLease);
    assert_eq!(sup.step(poll(0, 20_250)), Action::Report(FailReason::LeaseTimeout));
    assert!(matches!(sup.state(), ConnectionState::Failed(FailReason::LeaseTimeout)));
    assert_eq!(sup.step(Event::Proceed), Action::StartAccessPoint);
    assert!(matches!(sup.state(), ConnectionState::Provisioning));
}

#[test]
fn rejected_join_falls_back_to_provisioning() {
    let mut sup = joining();
    assert_eq!(sup.step(Event::JoinRejected), Action::Report(FailReason::JoinRejected));
    assert_eq!(sup.step(Event::Proceed), Action::StartAccessPoint);
}

#[test]
fn lost_connection_reopens_provisioning_before_any_cycle() {
    let mut sup = joining();
    assert_eq!(sup.step(poll(7, 250)), Action::CheckConnectivity);
    assert_eq!(sup.step(Event::Recheck { connected: true }), Action::RunCycle);
    assert_eq!(sup.step(Event::Recheck { connected: true }), Action::RunCycle);
    assert_eq!(
        sup.step(Event::Recheck { connected: false }),
        Action::Report(FailReason::ConnectionLost)
    );
    assert_eq!(sup.step(Event::Recheck { connected: true }), Action::StartAccessPoint);
    assert!(matches!(sup.state(), ConnectionState::Provisioning));
}

#[test]
fn unrelated_events_repeat_the_waiting_action() {
    let mut sup = joining();
    assert_eq!(sup.step(Event::Recheck { connected: true }), Action::PollLease);
    assert_eq!(sup.step(poll(9, 300)), Action::CheckConnectivity);
    assert_eq!(sup.step(Event::Proceed), Action::CheckConnectivity);
    assert_eq!(sup.step(poll(0, 99_999)), Action::CheckConnectivity);
    assert!(matches!(sup.state(), ConnectionState::Connected(_)));
}

#[test]
fn end_to_end_provisioning_to_first_uplink() {
    let (mut sup, a) = Supervisor::boot(None);
    assert_eq!(a, Action::StartAccessPoint);
    let mut slot = HandoffSlot::new();
    assert_eq!(handle_setup(b"ssid=HomeNet&pass=secret123", &mut slot).status(), 200);
    let c = slot.take().unwrap();
    assert_eq!(sup.step(Event::CredentialsReceived(c)), Action::Join);
    let joined = sup.joining_credentials().unwrap();
    assert_eq!(joined.network_id, "HomeNet");
    assert_eq!(joined.secret, "secret123");
    assert_eq!(sup.step(poll(0, 0)), Action::PollLease);
    assert_eq!(sup.step(poll(0xC0A8_0105, 1_500)), Action::CheckConnectivity);
    assert!(matches!(sup.state(), ConnectionState::Connected(_)));
    assert_eq!(sup.step(Event::Recheck { connected: true }), Action::RunCycle);
    let reading = Reading::from_sample(Some((22, 55)), 1);
    assert_eq!(payload(&reading), br#"{"ping":true,"temperature":22,"humidity":55}"#.to_vec());
}
