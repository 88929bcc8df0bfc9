//! The driver task as a state machine. A driver owns one connection. The
//! program around it performs each action the machine asks for (connect,
//! sleep, receive, send, read) and reports what happened as the next
//! event; the machine decides what follows and keeps the counters.

use crate::config::Protocol;
use crate::keyspace::Verb;
use crate::metrics::{saturating_sum, Counter, Counters, Outcome};
use crate::runtime::heatmap_made_with;
use crate::workload::WorkKind;
use vstd::prelude::*;

verus! {

/// Milliseconds to wait after a failed connection attempt.
pub const RETRY_DELAY_MS: u64 = 100;

/// Milliseconds to wait for a work item before looking at the run again.
pub const RECEIVE_WAIT_MS: u64 = 1000;

/// Where a driver stands.
#[derive(Clone, Copy, Debug, PartialEq, Eq, Structural)]
pub enum Phase {
    /// No connection, and none being opened.
    Disconnected,
    /// A connection is being opened.
    Connecting,
    /// Waiting out the delay after a failed attempt.
    Backoff,
    /// Connected, with no request in flight.
    Ready,
    /// Connected, waiting for the response to a request.
    InFlight { verb: Verb },
    /// The task has ended.
    Stopped,
}

/// What a response tells beyond success: how many items were there, were
/// not there, were stored and were removed.
#[derive(Clone, Copy, Debug, PartialEq, Eq, Structural)]
pub struct Tally {
    pub hit: u64,
    pub miss: u64,
    pub stored: u64,
    pub deleted: u64,
}

/// An amount to add to a counter.
#[derive(Clone, Copy, Debug, PartialEq, Eq, Structural)]
pub struct Bump {
    pub name: Counter,
    pub amount: u64,
}

/// One more of `name`.
pub open spec fn one(name: Counter) -> Bump {
    Bump { name, amount: 1 }
}

/// What the program reports to the driver.
#[derive(Clone, Copy, Debug, PartialEq, Eq, Structural)]
pub enum Event {
    /// The task starts, or a delay has passed.
    Wake,
    /// The connection is open and every handshake is done.
    Connected,
    /// Opening the connection, or a handshake on it, failed.
    ConnectFailed,
    /// Opening the connection took longer than the connect timeout.
    ConnectTimedOut,
    /// An item was taken from the work queue.
    Work(WorkKind),
    /// No item arrived within the time allowed for a receive.
    Idle,
    /// The work queue is closed.
    QueueClosed,
    /// A response arrived and was understood. `tally` is what the protocol
    /// tells beyond success (items hit, missed, stored, deleted); `close`
    /// says that the server asked for the connection to be closed.
    Response { latency_ns: u64, tally: Tally, close: bool },
    /// Bytes arrived and the response is not complete yet; `elapsed_ns` is
    /// the time since the request was sent.
    Incomplete { elapsed_ns: u64 },
    /// The response was malformed, was a server error, or the connection
    /// failed during the request.
    Exception,
    /// No response arrived within the time allowed.
    TimedOut,
}

/// What the driver asks the program to do next.
#[derive(Clone, Copy, Debug, PartialEq, Eq, Structural)]
pub enum Action {
    /// Drop any connection and open a new one within `timeout_ms`, after
    /// acquiring a token of the connect limiter, or of the reconnect limiter
    /// when `reconnect` is set.
    Connect { timeout_ms: u64, reconnect: bool },
    /// Drop any connection and wait `ms` milliseconds.
    Sleep { ms: u64 },
    /// Take the next item from the work queue, waiting for at most
    /// `timeout_ms` milliseconds.
    Receive { timeout_ms: u64 },
    /// Send the request of the item just received and wait for the response
    /// for at most `timeout_ns`.
    Send { verb: Verb, timeout_ns: u64 },
    /// Go on reading the response for at most `timeout_ns`.
    Read { timeout_ns: u64 },
    /// Drop any connection and end the task.
    Exit,
}

/// The fixed parameters of a driver.
#[derive(Clone, Copy, Debug, PartialEq, Eq, Structural)]
pub struct DriverSettings {
    pub protocol: Protocol,
    pub connect_timeout_ms: u64,
    pub request_timeout_ns: u64,
}

/// The commands that each protocol can carry out.
pub open spec fn supports(protocol: Protocol, verb: Verb) -> bool {
    match protocol {
        Protocol::Ping => verb is Ping,
        Protocol::Redis => verb is Get || verb is Put || verb is Delete || verb is HashGet
            || verb is HashSet || verb is HashDelete || verb is HashExists,
        Protocol::Http1 => verb is Get,
        Protocol::Http2 => verb is Get,
        Protocol::Momento => verb is Get || verb is Put || verb is HashGet || verb is HashSet
            || verb is HashDelete || verb is HashIncrement || verb is HashMultiGet,
        Protocol::PubSubMomento => verb is Publish,
    }
}

/// Decides [`supports`].
pub fn is_supported(protocol: Protocol, verb: Verb) -> (out: bool)
    ensures
        out == supports(protocol, verb),
{
    match protocol {
        Protocol::Ping => match verb {
            Verb::Ping => true,
            _ => false,
        },
        Protocol::Redis => match verb {
            Verb::Get
            | Verb::Put
            | Verb::Delete
            | Verb::HashGet
            | Verb::HashSet
            | Verb::HashDelete
            | Verb::HashExists => true,
            _ => false,
        },
        Protocol::Http1 | Protocol::Http2 => match verb {
            Verb::Get => true,
            _ => false,
        },
        Protocol::Momento => match verb {
            Verb::Get
            | Verb::Put
            | Verb::HashGet
            | Verb::HashSet
            | Verb::HashDelete
            | Verb::HashIncrement
            | Verb::HashMultiGet => true,
            _ => false,
        },
        Protocol::PubSubMomento => match verb {
            Verb::Publish => true,
            _ => false,
        },
    }
}

/// The state of a driver that decides what it does next: its phase, and
/// whether it has had a connection before.
#[derive(Clone, Copy, Debug, PartialEq, Eq, Structural)]
pub struct Control {
    pub phase: Phase,
    pub connected_before: bool,
}

/// One step of a driver: where it stands afterwards, what it asks for,
/// what it adds to which counters, in order, and the latency to record in
/// the response-latency heatmap, if the step ends a request with an
/// understood response.
pub struct Step {
    pub control: Control,
    pub action: Action,
    pub bumps: Seq<Bump>,
    pub latency: Option<u64>,
}

/// The time left for a response, `elapsed_ns` after the request was sent.
pub open spec fn remaining_budget(timeout_ns: u64, elapsed_ns: u64) -> u64 {
    if elapsed_ns >= timeout_ns {
        0
    } else {
        (timeout_ns - elapsed_ns) as u64
    }
}

/// The step that opens a connection.
pub open spec fn connect_step(
    s: DriverSettings,
    c: Control,
    bumps: Seq<Bump>,
    latency: Option<u64>,
) -> Step {
    Step {
        control: Control { phase: Phase::Connecting, connected_before: c.connected_before },
        action: Action::Connect { timeout_ms: s.connect_timeout_ms, reconnect: c.connected_before },
        bumps,
        latency,
    }
}

/// The step that keeps the connection and takes the next work item.
pub open spec fn receive_step(c: Control, bumps: Seq<Bump>, latency: Option<u64>) -> Step {
    Step {
        control: Control { phase: Phase::Ready, connected_before: c.connected_before },
        action: Action::Receive { timeout_ms: RECEIVE_WAIT_MS },
        bumps,
        latency,
    }
}

/// The step that ends the task.
pub open spec fn exit_step(c: Control) -> Step {
    Step {
        control: Control { phase: Phase::Stopped, connected_before: c.connected_before },
        action: Action::Exit,
        bumps: Seq::empty(),
        latency: None,
    }
}

/// The counters of a response that was understood: the command's success
/// counter and the response counter go up by one, the command's hit, miss,
/// stored and deleted counters by what the response tells, and the
/// server-close counter by one if the server asked to close.
pub open spec fn response_bumps(verb: Verb, tally: Tally, close: bool) -> Seq<Bump> {
    let counted = seq![
        one(Counter::Command(verb, Outcome::Success)),
        Bump { name: Counter::Command(verb, Outcome::Hit), amount: tally.hit },
        Bump { name: Counter::Command(verb, Outcome::Miss), amount: tally.miss },
        Bump { name: Counter::Command(verb, Outcome::Stored), amount: tally.stored },
        Bump { name: Counter::Command(verb, Outcome::Deleted), amount: tally.deleted },
        one(Counter::ResponseOk),
    ];
    if close {
        counted.push(one(Counter::SessionClosedServer))
    } else {
        counted
    }
}

/// The counters of a request that ran out of time.
pub open spec fn timeout_bumps() -> Seq<Bump> {
    seq![one(Counter::ResponseTimeout), one(Counter::SessionClosedClient)]
}

/// True for the events that end a request in flight: a response, an
/// exception, a timeout, or a partial read after the time allowed.
pub open spec fn ends_request(s: DriverSettings, event: Event) -> bool {
    ||| event is Response
    ||| event is Exception
    ||| event is TimedOut
    ||| event matches Event::Incomplete { elapsed_ns } && remaining_budget(
        s.request_timeout_ns,
        elapsed_ns,
    ) == 0
}

/// The transition function of the driver.
///
/// While the run is on, the phase and the event decide, as
/// [`running_step`] says. Once the run is over, the driver stops. An event
/// that ends the request in flight is then still counted, and its latency
/// carried, as while the run is on: a request that was counted as sent is
/// accounted for when its outcome is known. Nothing else is counted once
/// the run is over.
pub open spec fn transition(s: DriverSettings, c: Control, running: bool, event: Event) -> Step {
    if running {
        running_step(s, c, event)
    } else if c.phase is InFlight && ends_request(s, event) {
        Step {
            control: Control { phase: Phase::Stopped, connected_before: c.connected_before },
            action: Action::Exit,
            bumps: running_step(s, c, event).bumps,
            latency: running_step(s, c, event).latency,
        }
    } else {
        exit_step(c)
    }
}

/// What a driver does while the run is on. The phase and the event decide;
/// an event that cannot occur in a phase changes nothing and asks again for
/// what the phase is waiting for. A stopped driver stays stopped.
pub open spec fn running_step(s: DriverSettings, c: Control, event: Event) -> Step {
    if c.phase is Stopped {
        exit_step(c)
    } else {
        match (c.phase, event) {
            (Phase::Disconnected, _) => connect_step(s, c, Seq::empty(), None),
            (Phase::Backoff, _) => connect_step(s, c, Seq::empty(), None),
            (Phase::Connecting, Event::Connected) => Step {
                control: Control { phase: Phase::Ready, connected_before: true },
                action: Action::Receive { timeout_ms: RECEIVE_WAIT_MS },
                bumps: seq![one(Counter::Session), one(Counter::Connect)],
                latency: None,
            },
            (Phase::Connecting, Event::ConnectFailed) => Step {
                control: Control { phase: Phase::Backoff, connected_before: c.connected_before },
                action: Action::Sleep { ms: RETRY_DELAY_MS },
                bumps: seq![one(Counter::ConnectEx)],
                latency: None,
            },
            (Phase::Connecting, Event::ConnectTimedOut) => Step {
                control: Control { phase: Phase::Backoff, connected_before: c.connected_before },
                action: Action::Sleep { ms: RETRY_DELAY_MS },
                bumps: seq![one(Counter::ConnectTimeout)],
                latency: None,
            },
            (Phase::Connecting, _) => connect_step(s, c, Seq::empty(), None),
            (Phase::Ready, Event::Work(WorkKind::Reconnect)) => connect_step(
                s,
                c,
                seq![
                    one(Counter::Request),
                    one(Counter::SessionClosedClient),
                    one(Counter::RequestReconnect),
                ],
                None,
            ),
            (Phase::Ready, Event::Work(WorkKind::Command(verb))) => if supports(s.protocol, verb) {
                Step {
                    control: Control {
                        phase: Phase::InFlight { verb },
                        connected_before: c.connected_before,
                    },
                    action: Action::Send { verb, timeout_ns: s.request_timeout_ns },
                    bumps: seq![one(Counter::Request), one(Counter::RequestOk)],
                    latency: None,
                }
            } else {
                receive_step(c, seq![one(Counter::Request), one(Counter::RequestUnsupported)], None)
            },
            (Phase::Ready, Event::Work(WorkKind::Other)) => receive_step(
                c,
                seq![one(Counter::Request), one(Counter::RequestUnsupported)],
                None,
            ),
            (Phase::Ready, Event::QueueClosed) => exit_step(c),
            (Phase::Ready, _) => receive_step(c, Seq::empty(), None),
            (Phase::InFlight { verb }, Event::Response { latency_ns, tally, close }) => if close {
                connect_step(s, c, response_bumps(verb, tally, close), Some(latency_ns))
            } else {
                receive_step(c, response_bumps(verb, tally, close), Some(latency_ns))
            },
            (Phase::InFlight { verb }, Event::Exception) => connect_step(
                s,
                c,
                seq![
                    one(Counter::Command(verb, Outcome::Exception)),
                    one(Counter::ResponseEx),
                    one(Counter::SessionClosedClient),
                ],
                None,
            ),
            (Phase::InFlight { verb }, Event::TimedOut) => connect_step(
                s,
                c,
                timeout_bumps(),
                None,
            ),
            (Phase::InFlight { verb }, Event::Incomplete { elapsed_ns }) => if remaining_budget(
                s.request_timeout_ns,
                elapsed_ns,
            ) == 0 {
                connect_step(s, c, timeout_bumps(), None)
            } else {
                Step {
                    control: c,
                    action: Action::Read {
                        timeout_ns: remaining_budget(s.request_timeout_ns, elapsed_ns),
                    },
                    bumps: Seq::empty(),
                    latency: None,
                }
            },
            (Phase::InFlight { verb }, _) => Step {
                control: c,
                action: Action::Read { timeout_ns: s.request_timeout_ns },
                bumps: Seq::empty(),
                latency: None,
            },
            (Phase::Stopped, _) => exit_step(c),
        }
    }
}

/// The value of the counter `name` after the `bumps`, starting from
/// `before`. A counter that would pass the largest value stays there.
pub open spec fn bumped(before: u64, name: Counter, bumps: Seq<Bump>) -> u64
    decreases bumps.len(),
{
    if bumps.len() == 0 {
        before
    } else {
        let earlier = bumped(before, name, bumps.drop_last());
        if bumps.last().name == name {
            saturating_sum(earlier, bumps.last().amount)
        } else {
            earlier
        }
    }
}

/// What the `bumps` add to the counter `name` in all.
pub open spec fn total(bumps: Seq<Bump>, name: Counter) -> nat
    decreases bumps.len(),
{
    if bumps.len() == 0 {
        0
    } else {
        total(bumps.drop_last(), name) + if bumps.last().name == name {
            bumps.last().amount as nat
        } else {
            0nat
        }
    }
}

/// Declares `heatmap::Heatmap` as a type whose contents, which age with
/// the clock, are not visible to contracts.
#[verifier::external_type_specification]
#[verifier::external_body]
pub struct ExHeatmap(heatmap::Heatmap);

/// Records `count` occurrences of a latency in a heatmap with
/// `heatmap::Heatmap::increment`, at the current instant.
///
/// Trusted: nothing is claimed. The heatmap may refuse the value (out of its
/// range, or the clock has moved on); the refusal is dropped. Excluded is a
/// heatmap of a single slice: when its clock has moved past the instant
/// given, the call subtracts from a count of zero.
#[verifier::external_body]
pub(crate) fn record_latency(heatmap: &heatmap::Heatmap, latency_ns: u64, count: u32)
    requires
        heatmap_made_with(*heatmap).slices >= 2,
{
    let _ = heatmap.increment(heatmap::Instant::now(), latency_ns, count);
}

/// One step as the executable code holds it.
pub struct Decision {
    pub control: Control,
    pub action: Action,
    pub bumps: Vec<Bump>,
    pub latency: Option<u64>,
}

impl Decision {
    /// The step that this decision stands for.
    pub open spec fn view(&self) -> Step {
        Step {
            control: self.control,
            action: self.action,
            bumps: self.bumps@,
            latency: self.latency,
        }
    }
}

fn connect_decision(
    s: DriverSettings,
    c: Control,
    bumps: Vec<Bump>,
    latency: Option<u64>,
) -> (out: Decision)
    ensures
        out@ == connect_step(s, c, bumps@, latency),
{
    Decision {
        control: Control { phase: Phase::Connecting, connected_before: c.connected_before },
        action: Action::Connect { timeout_ms: s.connect_timeout_ms, reconnect: c.connected_before },
        bumps,
        latency,
    }
}

fn receive_decision(c: Control, bumps: Vec<Bump>, latency: Option<u64>) -> (out: Decision)
    ensures
        out@ == receive_step(c, bumps@, latency),
{
    Decision {
        control: Control { phase: Phase::Ready, connected_before: c.connected_before },
        action: Action::Receive { timeout_ms: RECEIVE_WAIT_MS },
        bumps,
        latency,
    }
}

fn exit_decision(c: Control) -> (out: Decision)
    ensures
        out@ == exit_step(c),
{
    Decision {
        control: Control { phase: Phase::Stopped, connected_before: c.connected_before },
        action: Action::Exit,
        bumps: Vec::new(),
        latency: None,
    }
}

fn names1(a: Counter) -> (out: Vec<Bump>)
    ensures
        out@ == seq![one(a)],
{
    let mut out = Vec::new();
    out.push(Bump { name: a, amount: 1 });
    assert(out@ =~= seq![one(a)]);
    out
}

fn names2(a: Counter, b: Counter) -> (out: Vec<Bump>)
    ensures
        out@ == seq![one(a), one(b)],
{
    let mut out = Vec::new();
    out.push(Bump { name: a, amount: 1 });
    out.push(Bump { name: b, amount: 1 });
    assert(out@ =~= seq![one(a), one(b)]);
    out
}

fn names3(a: Counter, b: Counter, c: Counter) -> (out: Vec<Bump>)
    ensures
        out@ == seq![one(a), one(b), one(c)],
{
    let mut out = Vec::new();
    out.push(Bump { name: a, amount: 1 });
    out.push(Bump { name: b, amount: 1 });
    out.push(Bump { name: c, amount: 1 });
    assert(out@ =~= seq![one(a), one(b), one(c)]);
    out
}

fn response_names(verb: Verb, tally: Tally, close: bool) -> (out: Vec<Bump>)
    ensures
        out@ == response_bumps(verb, tally, close),
{
    let mut out = Vec::new();
    out.push(Bump { name: Counter::Command(verb, Outcome::Success), amount: 1 });
    out.push(Bump { name: Counter::Command(verb, Outcome::Hit), amount: tally.hit });
    out.push(Bump { name: Counter::Command(verb, Outcome::Miss), amount: tally.miss });
    out.push(Bump { name: Counter::Command(verb, Outcome::Stored), amount: tally.stored });
    out.push(Bump { name: Counter::Command(verb, Outcome::Deleted), amount: tally.deleted });
    out.push(Bump { name: Counter::ResponseOk, amount: 1 });
    if close {
        out.push(Bump { name: Counter::SessionClosedServer, amount: 1 });
    }
    assert(out@ =~= response_bumps(verb, tally, close));
    out
}

/// Computes the time left for a response.
pub fn budget_left(timeout_ns: u64, elapsed_ns: u64) -> (out: u64)
    ensures
        out == remaining_budget(timeout_ns, elapsed_ns),
        out <= timeout_ns,
        elapsed_ns < timeout_ns ==> out + elapsed_ns == timeout_ns,
{
    if elapsed_ns >= timeout_ns {
        0
    } else {
        timeout_ns - elapsed_ns
    }
}

/// Decides [`ends_request`].
pub fn is_end_of_request(s: DriverSettings, event: Event) -> (out: bool)
    ensures
        out == ends_request(s, event),
{
    match event {
        Event::Response { .. } | Event::Exception | Event::TimedOut => true,
        Event::Incomplete { elapsed_ns } => budget_left(s.request_timeout_ns, elapsed_ns) == 0,
        _ => false,
    }
}

/// Computes one step of the driver.
pub fn decide(s: DriverSettings, c: Control, running: bool, event: Event) -> (out: Decision)
    ensures
        out@ == transition(s, c, running, event),
{
    if running {
        return decide_running(s, c, event);
    }
    let in_flight = match c.phase {
        Phase::InFlight { .. } => true,
        _ => false,
    };
    if in_flight && is_end_of_request(s, event) {
        let last = decide_running(s, c, event);
        Decision {
            control: Control { phase: Phase::Stopped, connected_before: c.connected_before },
            action: Action::Exit,
            bumps: last.bumps,
            latency: last.latency,
        }
    } else {
        exit_decision(c)
    }
}

/// Computes one step of the driver while the run is on.
pub fn decide_running(s: DriverSettings, c: Control, event: Event) -> (out: Decision)
    ensures
        out@ == running_step(s, c, event),
{
    match c.phase {
        Phase::Stopped => exit_decision(c),
        Phase::Disconnected | Phase::Backoff => connect_decision(s, c, Vec::new(), None),
        Phase::Connecting => match event {
            Event::Connected => Decision {
                control: Control { phase: Phase::Ready, connected_before: true },
                action: Action::Receive { timeout_ms: RECEIVE_WAIT_MS },
                bumps: names2(Counter::Session, Counter::Connect),
                latency: None,
            },
            Event::ConnectFailed => Decision {
                control: Control { phase: Phase::Backoff, connected_before: c.connected_before },
                action: Action::Sleep { ms: RETRY_DELAY_MS },
                bumps: names1(Counter::ConnectEx),
                latency: None,
            },
            Event::ConnectTimedOut => Decision {
                control: Control { phase: Phase::Backoff, connected_before: c.connected_before },
                action: Action::Sleep { ms: RETRY_DELAY_MS },
                bumps: names1(Counter::ConnectTimeout),
                latency: None,
            },
            _ => connect_decision(s, c, Vec::new(), None),
        },
        Phase::Ready => match event {
            Event::Work(WorkKind::Reconnect) => connect_decision(
                s,
                c,
                names3(Counter::Request, Counter::SessionClosedClient, Counter::RequestReconnect),
                None,
            ),
            Event::Work(WorkKind::Command(verb)) => if is_supported(s.protocol, verb) {
                Decision {
                    control: Control {
                        phase: Phase::InFlight { verb },
                        connected_before: c.connected_before,
                    },
                    action: Action::Send { verb, timeout_ns: s.request_timeout_ns },
                    bumps: names2(Counter::Request, Counter::RequestOk),
                    latency: None,
                }
            } else {
                receive_decision(c, names2(Counter::Request, Counter::RequestUnsupported), None)
            },
            Event::Work(WorkKind::Other) => receive_decision(
                c,
                names2(Counter::Request, Counter::RequestUnsupported),
                None,
            ),
            Event::QueueClosed => exit_decision(c),
            _ => receive_decision(c, Vec::new(), None),
        },
        Phase::InFlight { verb } => match event {
            Event::Response { latency_ns, tally, close } => if close {
                connect_decision(s, c, response_names(verb, tally, close), Some(latency_ns))
            } else {
                receive_decision(c, response_names(verb, tally, close), Some(latency_ns))
            },
            Event::Exception => connect_decision(
                s,
                c,
                names3(
                    Counter::Command(verb, Outcome::Exception),
                    Counter::ResponseEx,
                    Counter::SessionClosedClient,
                ),
                None,
            ),
            Event::TimedOut => connect_decision(
                s,
                c,
                names2(Counter::ResponseTimeout, Counter::SessionClosedClient),
                None,
            ),
            Event::Incomplete { elapsed_ns } => {
                let left = budget_left(s.request_timeout_ns, elapsed_ns);
                if left == 0 {
                    connect_decision(
                        s,
                        c,
                        names2(Counter::ResponseTimeout, Counter::SessionClosedClient),
                        None,
                    )
                } else {
                    Decision {
                        control: c,
                        action: Action::Read { timeout_ns: left },
                        bumps: Vec::new(),
                        latency: None,
                    }
                }
            },
            _ => Decision {
                control: c,
                action: Action::Read { timeout_ns: s.request_timeout_ns },
                bumps: Vec::new(),
                latency: None,
            },
        },
    }
}

/// A driver: its parameters, where it stands, and what it has counted.
pub struct Driver {
    pub settings: DriverSettings,
    pub control: Control,
    pub counters: Counters,
}

impl Driver {
    /// The invariant: the counters are whole.
    pub open spec fn wf(&self) -> bool {
        self.counters.wf()
    }

    /// A driver that has not connected yet, with all counters at zero.
    pub fn new(settings: DriverSettings) -> (out: Self)
        ensures
            out.wf(),
            out.settings == settings,
            out.control == (Control { phase: Phase::Disconnected, connected_before: false }),
            forall|name: Counter| #[trigger] out.counters.value(name) == 0,
    {
        Driver {
            settings,
            control: Control { phase: Phase::Disconnected, connected_before: false },
            counters: Counters::new(),
        }
    }

    /// Takes one step: moves to the next phase, counts what the step counts,
    /// records the latency that the step carries in the heatmap `latency`,
    /// if one is given, and returns what to do next. A heatmap that is given
    /// holds at least two slices, as every heatmap of a [`crate::Builder`]
    /// does.
    pub fn step(
        &mut self,
        running: bool,
        event: Event,
        latency: Option<&heatmap::Heatmap>,
    ) -> (action: Action)
        requires
            old(self).wf(),
            latency matches Some(heatmap) ==> heatmap_made_with(*heatmap).slices >= 2,
        ensures
            final(self).wf(),
            final(self).settings == old(self).settings,
            final(self).control == transition(
                old(self).settings,
                old(self).control,
                running,
                event,
            ).control,
            action == transition(old(self).settings, old(self).control, running, event).action,
            forall|name: Counter|
                #[trigger] final(self).counters.value(name) == bumped(
                    old(self).counters.value(name),
                    name,
                    transition(old(self).settings, old(self).control, running, event).bumps,
                ),
    {
        let decision = decide(self.settings, self.control, running, event);
        if let Some(latency_ns) = decision.latency {
            if let Some(heatmap) = latency {
                record_latency(heatmap, latency_ns, 1);
            }
        }
        self.control = decision.control;
        let ghost bumps = decision.bumps@;
        let mut i: usize = 0;
        while i < decision.bumps.len()
            invariant
                i <= decision.bumps.len(),
                bumps == decision.bumps@,
                self.counters.wf(),
                self.settings == old(self).settings,
                self.control == decision.control,
                forall|name: Counter|
                    #[trigger] self.counters.value(name) == bumped(
                        old(self).counters.value(name),
                        name,
                        bumps.subrange(0, i as int),
                    ),
            decreases decision.bumps.len() - i,
        {
            let ghost before = self.counters;
            self.counters.add(decision.bumps[i].name, decision.bumps[i].amount);
            proof {
                let next = bumps.subrange(0, i + 1);
                assert(next.drop_last() =~= bumps.subrange(0, i as int));
                assert(next.last() == bumps[i as int]);
                assert forall|name: Counter|
                    #[trigger] self.counters.value(name) == bumped(
                        old(self).counters.value(name),
                        name,
                        next,
                    ) by {
                    assert(before.value(name) == bumped(
                        old(self).counters.value(name),
                        name,
                        bumps.subrange(0, i as int),
                    ));
                }
            }
            i = i + 1;
        }
        assert(bumps.subrange(0, i as int) =~= bumps);
        decision.action
    }

    /// Where the driver stands.
    pub fn phase(&self) -> (out: Phase)
        ensures
            out == self.control.phase,
    {
        self.control.phase
    }

    /// What the driver has counted.
    pub fn counters(&self) -> (out: &Counters)
        ensures
            *out == self.counters,
    {
        &self.counters
    }
}



/// True when `field` is one of the `found` names.
pub open spec fn is_found(found: Seq<Vec<u8>>, field: Seq<u8>) -> bool {
    exists|j: int| 0 <= j < found.len() && (#[trigger] found[j])@ == field
}

/// How many of the `fields` asked for are among the `found` names.
pub open spec fn found_count(fields: Seq<Vec<u8>>, found: Seq<Vec<u8>>) -> nat
    decreases fields.len(),
{
    if fields.len() == 0 {
        0
    } else {
        found_count(fields.drop_last(), found) + if is_found(found, fields.last()@) {
            1nat
        } else {
            0nat
        }
    }
}

/// Whether two buffers hold the same bytes.
pub fn same_bytes(a: &Vec<u8>, b: &Vec<u8>) -> (out: bool)
    ensures
        out == (a@ == b@),
{
    if a.len() != b.len() {
        return false;
    }
    let mut i: usize = 0;
    while i < a.len()
        invariant
            i <= a.len(),
            a.len() == b.len(),
            forall|j: int| 0 <= j < i ==> a@[j] == b@[j],
        decreases a.len() - i,
    {
        if a[i] != b[i] {
            return false;
        }
        i = i + 1;
    }
    assert(a@ =~= b@);
    true
}

/// Whether `field` is one of the `found` names.
pub fn contains_field(found: &Vec<Vec<u8>>, field: &Vec<u8>) -> (out: bool)
    ensures
        out == is_found(found@, field@),
{
    let mut j: usize = 0;
    while j < found.len()
        invariant
            j <= found.len(),
            forall|k: int| 0 <= k < j ==> (#[trigger] found@[k])@ != field@,
        decreases found.len() - j,
    {
        if same_bytes(&found[j], field) {
            return true;
        }
        j = j + 1;
    }
    false
}

impl Tally {
    /// A response that tells nothing beyond success.
    pub fn none() -> (out: Self)
        ensures
            out == (Tally { hit: 0, miss: 0, stored: 0, deleted: 0 }),
    {
        Tally { hit: 0, miss: 0, stored: 0, deleted: 0 }
    }

    /// The item looked for was there.
    pub fn hit() -> (out: Self)
        ensures
            out == (Tally { hit: 1, miss: 0, stored: 0, deleted: 0 }),
    {
        Tally { hit: 1, miss: 0, stored: 0, deleted: 0 }
    }

    /// The item looked for was not there.
    pub fn miss() -> (out: Self)
        ensures
            out == (Tally { hit: 0, miss: 1, stored: 0, deleted: 0 }),
    {
        Tally { hit: 0, miss: 1, stored: 0, deleted: 0 }
    }

    /// `count` items were stored.
    pub fn stored(count: u64) -> (out: Self)
        ensures
            out == (Tally { hit: 0, miss: 0, stored: count, deleted: 0 }),
    {
        Tally { hit: 0, miss: 0, stored: count, deleted: 0 }
    }

    /// `count` items were removed.
    pub fn deleted(count: u64) -> (out: Self)
        ensures
            out == (Tally { hit: 0, miss: 0, stored: 0, deleted: count }),
    {
        Tally { hit: 0, miss: 0, stored: 0, deleted: count }
    }

    /// The tally of a request for several fields of a hash: each field asked
    /// for is a hit if the response names it and a miss if not.
    pub fn of_fields(fields: &Vec<Vec<u8>>, found: &Vec<Vec<u8>>) -> (out: Self)
        ensures
            out.hit == found_count(fields@, found@),
            out.hit + out.miss == fields.len(),
            out.stored == 0,
            out.deleted == 0,
    {
        let mut hit: u64 = 0;
        let mut miss: u64 = 0;
        let mut i: usize = 0;
        while i < fields.len()
            invariant
                i <= fields.len(),
                hit == found_count(fields@.subrange(0, i as int), found@),
                hit + miss == i,
            decreases fields.len() - i,
        {
            proof {
                let next = fields@.subrange(0, i + 1);
                assert(next.drop_last() =~= fields@.subrange(0, i as int));
                assert(next.last() == fields@[i as int]);
            }
            if contains_field(found, &fields[i]) {
                hit = hit + 1;
            } else {
                miss = miss + 1;
            }
            i = i + 1;
        }
        assert(fields@.subrange(0, i as int) =~= fields@);
        Tally { hit, miss, stored: 0, deleted: 0 }
    }

    /// The tally of an increment: a counter that now holds exactly the
    /// amount added did not exist before, which is a miss; any other value is
    /// a hit.
    pub fn of_increment(value: i64, amount: i64) -> (out: Self)
        ensures
            out == if value == amount {
                Tally { hit: 0, miss: 1, stored: 0, deleted: 0 }
            } else {
                Tally { hit: 1, miss: 0, stored: 0, deleted: 0 }
            },
    {
        if value == amount {
            Tally::miss()
        } else {
            Tally::hit()
        }
    }
}

} // verus!
