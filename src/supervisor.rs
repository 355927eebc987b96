//! The connectivity supervisor: a state machine that decides, from each
//! event the radio or the provisioning server reports, the next state and
//! the one action to perform.
use vstd::prelude::*;
use crate::provisioning::Credentials;

verus! {

/// How long a join may wait for an address lease, in milliseconds.
pub const LEASE_TIMEOUT_MS: u64 = 20000;

/// Milliseconds between two looks at the address lease.
pub const LEASE_POLL_MS: u64 = 250;

/// Network name of the access point that provisioning opens.
pub const AP_SSID: &'static str = "ESP32_SETUP";

/// Radio channel of the access point.
pub const AP_CHANNEL: u8 = 6;

/// How many clients the access point admits at once.
pub const AP_MAX_CLIENTS: u16 = 4;

/// The address lease of a joined network, as an IPv4 address in network
/// order (`a.b.c.d` is `a << 24 | b << 16 | c << 8 | d`).
#[derive(Clone, Copy, Debug, PartialEq, Eq)]
pub struct LeaseInfo {
    pub address: u32,
}

/// Why connectivity was lost or never reached.
#[derive(Clone, Copy, Debug, PartialEq, Eq)]
pub enum FailReason {
    /// The radio refused the client configuration or the join request.
    JoinRejected,
    /// No address was leased before the deadline.
    LeaseTimeout,
    /// A connectivity re-check found the radio disconnected.
    ConnectionLost,
}

#[derive(Debug)]
pub enum ConnectionState {
    Provisioning,
    Joining(Credentials),
    Connected(LeaseInfo),
    Failed(FailReason),
}

/// What the surrounding loop observed after performing the last action.
#[derive(Debug)]
pub enum Event {
    /// Credentials arrived on the hand-off slot.
    CredentialsReceived(Credentials),
    /// Configuring the client mode or issuing the join failed.
    JoinRejected,
    /// One look at the lease: the address held (zero while none is leased)
    /// and the milliseconds since the join was issued.
    LeasePoll { address: u32, elapsed_ms: u64 },
    /// The answer of a connectivity re-check.
    Recheck { connected: bool },
    /// The last action was performed and had nothing to report.
    Proceed,
}

/// The single action the surrounding loop performs next.
#[derive(Clone, Copy, Debug, PartialEq, Eq)]
pub enum Action {
    /// Stop the radio, start it as the fixed open access point, start the
    /// provisioning server, then wait for credentials on the slot.
    StartAccessPoint,
    /// Keep waiting for credentials on the slot.
    AwaitCredentials,
    /// Stop the provisioning server if it runs, stop the radio, configure it
    /// as a client with the joining credentials, start it and issue the
    /// join; then look at the lease.
    Join,
    /// Wait `LEASE_POLL_MS`, then look at the lease again.
    PollLease,
    /// Ask the radio whether it is still connected.
    CheckConnectivity,
    /// Sample the sensor, send the reading, wait `CYCLE_PERIOD_MS`, then ask
    /// the radio whether it is still connected.
    RunCycle,
    /// Log the failure; every event then leads back to provisioning.
    Report(FailReason),
}

/// The state the machine starts in and the action that enters it: joining
/// directly with valid stored credentials, provisioning otherwise.
pub open spec fn initial(stored: Option<Credentials>) -> (ConnectionState, Action) {
    match stored {
        Some(c) => if c.valid() {
            (ConnectionState::Joining(c), Action::Join)
        } else {
            (ConnectionState::Provisioning, Action::StartAccessPoint)
        },
        None => (ConnectionState::Provisioning, Action::StartAccessPoint),
    }
}

/// The transition table. An event that means nothing in a state leaves the
/// state as it is and repeats the state's waiting action.
pub open spec fn next(s: ConnectionState, e: Event) -> (ConnectionState, Action) {
    match s {
        ConnectionState::Provisioning => match e {
            Event::CredentialsReceived(c) => if c.valid() {
                (ConnectionState::Joining(c), Action::Join)
            } else {
                (ConnectionState::Provisioning, Action::AwaitCredentials)
            },
            _ => (ConnectionState::Provisioning, Action::AwaitCredentials),
        },
        ConnectionState::Joining(c) => match e {
            Event::JoinRejected => (
                ConnectionState::Failed(FailReason::JoinRejected),
                Action::Report(FailReason::JoinRejected),
            ),
            Event::LeasePoll { address, elapsed_ms } => if address != 0 {
                (ConnectionState::Connected(LeaseInfo { address }), Action::CheckConnectivity)
            } else if elapsed_ms > LEASE_TIMEOUT_MS {
                (
                    ConnectionState::Failed(FailReason::LeaseTimeout),
                    Action::Report(FailReason::LeaseTimeout),
                )
            } else {
                (ConnectionState::Joining(c), Action::PollLease)
            },
            _ => (ConnectionState::Joining(c), Action::PollLease),
        },
        ConnectionState::Connected(l) => match e {
            Event::Recheck { connected } => if connected {
                (ConnectionState::Connected(l), Action::RunCycle)
            } else {
                (
                    ConnectionState::Failed(FailReason::ConnectionLost),
                    Action::Report(FailReason::ConnectionLost),
                )
            },
            _ => (ConnectionState::Connected(l), Action::CheckConnectivity),
        },
        ConnectionState::Failed(_) => (ConnectionState::Provisioning, Action::StartAccessPoint),
    }
}

/// The state reached from `s` through `events`, in order.
pub open spec fn run(s: ConnectionState, events: Seq<Event>) -> ConnectionState
    decreases events.len(),
{
    if events.len() == 0 {
        s
    } else {
        run(next(s, events[0]).0, events.skip(1))
    }
}

/// Looks at the lease that found no address yet, at the given elapsed times.
pub open spec fn empty_polls(elapsed: Seq<u64>) -> Seq<Event> {
    elapsed.map_values(|t: u64| Event::LeasePoll { address: 0, elapsed_ms: t })
}

proof fn lemma_run_first(s: ConnectionState, first: Event, rest: Seq<Event>)
    ensures
        run(s, seq![first] + rest) == run(next(s, first).0, rest),
{
    let evs = seq![first] + rest;
    assert(evs[0] == first);
    assert(evs.skip(1) =~= rest);
}

/// Lease looks within the deadline that find no address leave a join in
/// progress as it is.
proof fn lemma_waiting_keeps_joining(c: Credentials, elapsed: Seq<u64>, rest: Seq<Event>)
    requires
        forall|i: int| 0 <= i < elapsed.len() ==> elapsed[i] <= LEASE_TIMEOUT_MS,
    ensures
        run(ConnectionState::Joining(c), empty_polls(elapsed) + rest) == run(
            ConnectionState::Joining(c),
            rest,
        ),
    decreases elapsed.len(),
{
    if elapsed.len() > 0 {
        let tail = elapsed.skip(1);
        assert(empty_polls(elapsed) + rest =~= seq![
            Event::LeasePoll { address: 0, elapsed_ms: elapsed[0] },
        ] + (empty_polls(tail) + rest));
        lemma_run_first(
            ConnectionState::Joining(c),
            Event::LeasePoll { address: 0, elapsed_ms: elapsed[0] },
            empty_polls(tail) + rest,
        );
        lemma_waiting_keeps_joining(c, tail, rest);
    }
}

/// From provisioning, valid credentials followed by lease looks that find
/// nothing before the deadline, then one that finds an address within it,
/// end in `Connected` with that address.
pub proof fn lemma_lease_in_time_connects(
    c: Credentials,
    waits: Seq<u64>,
    address: u32,
    elapsed_ms: u64,
)
    requires
        c.valid(),
        forall|i: int| 0 <= i < waits.len() ==> waits[i] <= LEASE_TIMEOUT_MS,
        address != 0,
        elapsed_ms <= LEASE_TIMEOUT_MS,
    ensures
        run(
            ConnectionState::Provisioning,
            seq![Event::CredentialsReceived(c)] + empty_polls(waits) + seq![
                Event::LeasePoll { address, elapsed_ms },
            ],
        ) == ConnectionState::Connected(LeaseInfo { address }),
{
    let last = seq![Event::LeasePoll { address, elapsed_ms }];
    assert(seq![Event::CredentialsReceived(c)] + empty_polls(waits) + last =~= seq![
        Event::CredentialsReceived(c),
    ] + (empty_polls(waits) + last));
    lemma_run_first(
        ConnectionState::Provisioning,
        Event::CredentialsReceived(c),
        empty_polls(waits) + last,
    );
    lemma_waiting_keeps_joining(c, waits, last);
    lemma_run_first(ConnectionState::Joining(c), last[0], seq![]);
    assert(seq![last[0]] + seq![] =~= last);
}

/// From provisioning, valid credentials followed by lease looks that never
/// find an address, the last one past the deadline, end in
/// `Failed(LeaseTimeout)`; whatever comes next leads back to provisioning
/// and reopens the access point.
pub proof fn lemma_no_lease_falls_back(
    c: Credentials,
    waits: Seq<u64>,
    elapsed_ms: u64,
    after: Event,
)
    requires
        c.valid(),
        forall|i: int| 0 <= i < waits.len() ==> waits[i] <= LEASE_TIMEOUT_MS,
        elapsed_ms > LEASE_TIMEOUT_MS,
    ensures
        run(
            ConnectionState::Provisioning,
            seq![Event::CredentialsReceived(c)] + empty_polls(waits) + seq![
                Event::LeasePoll { address: 0, elapsed_ms },
            ],
        ) == ConnectionState::Failed(FailReason::LeaseTimeout),
        next(ConnectionState::Failed(FailReason::LeaseTimeout), after) == (
            ConnectionState::Provisioning,
            Action::StartAccessPoint,
        ),
{
    let last = seq![Event::LeasePoll { address: 0, elapsed_ms }];
    assert(seq![Event::CredentialsReceived(c)] + empty_polls(waits) + last =~= seq![
        Event::CredentialsReceived(c),
    ] + (empty_polls(waits) + last));
    lemma_run_first(
        ConnectionState::Provisioning,
        Event::CredentialsReceived(c),
        empty_polls(waits) + last,
    );
    lemma_waiting_keeps_joining(c, waits, last);
    lemma_run_first(ConnectionState::Joining(c), last[0], seq![]);
    assert(seq![last[0]] + seq![] =~= last);
}

/// While connected, a failed re-check goes to `Failed(ConnectionLost)`, and
/// whatever comes next reopens the access point and the provisioning
/// server: no telemetry cycle is handed out in between.
pub proof fn lemma_lost_link_reopens_provisioning(l: LeaseInfo, after: Event)
    ensures
        next(ConnectionState::Connected(l), Event::Recheck { connected: false }) == (
            ConnectionState::Failed(FailReason::ConnectionLost),
            Action::Report(FailReason::ConnectionLost),
        ),
        next(ConnectionState::Failed(FailReason::ConnectionLost), after) == (
            ConnectionState::Provisioning,
            Action::StartAccessPoint,
        ),
{
}

/// A telemetry cycle is handed out only from `Connected`, right after a
/// re-check that found the radio connected, and the state stays as it was.
pub proof fn lemma_cycle_only_when_connected(s: ConnectionState, e: Event)
    ensures
        next(s, e).1 == Action::RunCycle ==> s is Connected && e == (Event::Recheck {
            connected: true,
        }) && next(s, e).0 == s,
{
}

/// The owner of the connection state and, through the actions it hands
/// out, of the radio.
pub struct Supervisor {
    state: ConnectionState,
}

impl View for Supervisor {
    type V = ConnectionState;

    closed spec fn view(&self) -> ConnectionState {
        self.state
    }
}

impl Supervisor {
    /// Starts the machine, from credentials stored before boot if any.
    pub fn boot(stored: Option<Credentials>) -> (r: (Supervisor, Action))
        ensures
            (r.0@, r.1) == initial(stored),
    {
        match stored {
            Some(c) => if c.is_valid() {
                (Supervisor { state: ConnectionState::Joining(c) }, Action::Join)
            } else {
                (Supervisor { state: ConnectionState::Provisioning }, Action::StartAccessPoint)
            },
            None => (Supervisor { state: ConnectionState::Provisioning }, Action::StartAccessPoint),
        }
    }

    pub fn state(&self) -> (r: &ConnectionState)
        ensures
            *r == self@,
    {
        &self.state
    }

    /// The credentials of the join in progress, if one is.
    pub fn joining_credentials(&self) -> (r: Option<&Credentials>)
        ensures
            match self@ {
                ConnectionState::Joining(c) => r == Some(&c),
                _ => r is None,
            },
    {
        match &self.state {
            ConnectionState::Joining(c) => Some(c),
            _ => None,
        }
    }

    /// Takes one event and moves to the next state; returns the action to
    /// perform.
    pub fn step(&mut self, e: Event) -> (a: Action)
        ensures
            (final(self)@, a) == next(old(self)@, e),
    {
        let mut s = ConnectionState::Provisioning;
        std::mem::swap(&mut s, &mut self.state);
        let (n, a) = transition(s, e);
        self.state = n;
        a
    }
}

fn transition(s: ConnectionState, e: Event) -> (r: (ConnectionState, Action))
    ensures
        r == next(s, e),
{
    match s {
        ConnectionState::Provisioning => match e {
            Event::CredentialsReceived(c) => if c.is_valid() {
                (ConnectionState::Joining(c), Action::Join)
            } else {
                (ConnectionState::Provisioning, Action::AwaitCredentials)
            },
            _ => (ConnectionState::Provisioning, Action::AwaitCredentials),
        },
        ConnectionState::Joining(c) => match e {
            Event::JoinRejected => (
                ConnectionState::Failed(FailReason::JoinRejected),
                Action::Report(FailReason::JoinRejected),
            ),
            Event::LeasePoll { address, elapsed_ms } => if address != 0 {
                (ConnectionState::Connected(LeaseInfo { address }), Action::CheckConnectivity)
            } else if elapsed_ms > LEASE_TIMEOUT_MS {
                (
                    ConnectionState::Failed(FailReason::LeaseTimeout),
                    Action::Report(FailReason::LeaseTimeout),
                )
            } else {
                (ConnectionState::Joining(c), Action::PollLease)
            },
            _ => (ConnectionState::Joining(c), Action::PollLease),
        },
        ConnectionState::Connected(l) => match e {
            Event::Recheck { connected } => if connected {
                (ConnectionState::Connected(l), Action::RunCycle)
            } else {
                (
                    ConnectionState::Failed(FailReason::ConnectionLost),
                    Action::Report(FailReason::ConnectionLost),
                )
            },
            _ => (ConnectionState::Connected(l), Action::CheckConnectivity),
        },
        ConnectionState::Failed(_) => (ConnectionState::Provisioning, Action::StartAccessPoint),
    }
}

} // verus!
