//! What holds of the driver's counters over whole runs: sessions opened
//! cover sessions closed, every request sent ends in exactly one way,
//! faults and timeouts are counted once, a stopped driver counts nothing,
//! and no action outlasts the timeouts by more than a second.

use crate::driver::{
    bumped, ends_request, remaining_budget, response_bumps, supports, total, transition, Action,
    Bump, Control, DriverSettings, Event, Phase, Tally,
};
use crate::keyspace::Verb;
use crate::metrics::{Counter, Outcome};
use crate::workload::WorkKind;
use vstd::prelude::*;

verus! {

/// What the program reports in one iteration: whether the run is still on,
/// and the event.
pub struct Input {
    pub running: bool,
    pub event: Event,
}

/// Where a driver stands after a sequence of inputs.
pub open spec fn run_control(s: DriverSettings, c: Control, inputs: Seq<Input>) -> Control
    decreases inputs.len(),
{
    if inputs.len() == 0 {
        c
    } else {
        transition(
            s,
            run_control(s, c, inputs.drop_last()),
            inputs.last().running,
            inputs.last().event,
        ).control
    }
}

/// Everything a sequence of inputs adds to the counters, in order.
pub open spec fn run_bumps(s: DriverSettings, c: Control, inputs: Seq<Input>) -> Seq<Bump>
    decreases inputs.len(),
{
    if inputs.len() == 0 {
        Seq::empty()
    } else {
        run_bumps(s, c, inputs.drop_last()) + transition(
            s,
            run_control(s, c, inputs.drop_last()),
            inputs.last().running,
            inputs.last().event,
        ).bumps
    }
}

/// One if a driver in this phase holds a connection, zero otherwise.
pub open spec fn open_sessions(phase: Phase) -> nat {
    if phase is Ready || phase is InFlight {
        1
    } else {
        0
    }
}

/// What one entry adds to the counter `name`.
pub open spec fn share(bump: Bump, name: Counter) -> nat {
    if bump.name == name {
        bump.amount as nat
    } else {
        0
    }
}

/// The total over a concatenation is the sum of the totals.
pub proof fn lemma_total_concat(a: Seq<Bump>, b: Seq<Bump>, name: Counter)
    ensures
        total(a + b, name) == total(a, name) + total(b, name),
    decreases b.len(),
{
    if b.len() == 0 {
        assert(a + b =~= a);
    } else {
        lemma_total_concat(a, b.drop_last(), name);
        assert((a + b).drop_last() =~= a + b.drop_last());
    }
}

/// The total of a list is the sum of the shares of its entries.
pub proof fn lemma_total_sum(bumps: Seq<Bump>, name: Counter)
    ensures
        total(bumps, name) == if bumps.len() == 0 {
            0
        } else {
            total(bumps.drop_last(), name) + share(bumps.last(), name)
        },
        bumps.len() == 1 ==> total(bumps, name) == share(bumps[0], name),
        bumps.len() == 2 ==> total(bumps, name) == share(bumps[0], name) + share(bumps[1], name),
        bumps.len() == 3 ==> total(bumps, name) == share(bumps[0], name) + share(bumps[1], name)
            + share(bumps[2], name),
        bumps.len() == 6 ==> total(bumps, name) == share(bumps[0], name) + share(bumps[1], name)
            + share(bumps[2], name) + share(bumps[3], name) + share(bumps[4], name) + share(
            bumps[5],
            name,
        ),
        bumps.len() == 7 ==> total(bumps, name) == share(bumps[0], name) + share(bumps[1], name)
            + share(bumps[2], name) + share(bumps[3], name) + share(bumps[4], name) + share(
            bumps[5],
            name,
        ) + share(bumps[6], name),
    decreases bumps.len(),
{
    if bumps.len() > 0 {
        let a = bumps.drop_last();
        lemma_total_sum(a, name);
        if a.len() > 0 {
            let b = a.drop_last();
            lemma_total_sum(b, name);
            if b.len() > 0 {
                let c = b.drop_last();
                lemma_total_sum(c, name);
                if c.len() > 0 {
                    let d = c.drop_last();
                    lemma_total_sum(d, name);
                    if d.len() > 0 {
                        let e = d.drop_last();
                        lemma_total_sum(e, name);
                        if e.len() > 0 {
                            lemma_total_sum(e.drop_last(), name);
                        }
                    }
                }
            }
        }
    }
}

/// What an understood response adds: one to the command's success counter
/// and to the response counter, the tally to the command's hit, miss,
/// stored and deleted counters, one to the server-close counter if the
/// server asked to close, and nothing to the session, timeout and exception
/// counters.
pub proof fn lemma_response_totals(verb: Verb, tally: Tally, close: bool)
    ensures
        ({
            let bumps = response_bumps(verb, tally, close);
            &&& total(bumps, Counter::ResponseOk) == 1
            &&& total(bumps, Counter::Command(verb, Outcome::Success)) == 1
            &&& total(bumps, Counter::Command(verb, Outcome::Hit)) == tally.hit
            &&& total(bumps, Counter::Command(verb, Outcome::Miss)) == tally.miss
            &&& total(bumps, Counter::Command(verb, Outcome::Stored)) == tally.stored
            &&& total(bumps, Counter::Command(verb, Outcome::Deleted)) == tally.deleted
            &&& total(bumps, Counter::Command(verb, Outcome::Exception)) == 0
            &&& total(bumps, Counter::Session) == 0
            &&& total(bumps, Counter::SessionClosedClient) == 0
            &&& total(bumps, Counter::ResponseTimeout) == 0
            &&& total(bumps, Counter::ResponseEx) == 0
            &&& total(bumps, Counter::SessionClosedServer) == if close {
                1nat
            } else {
                0nat
            }
        }),
{
    let bumps = response_bumps(verb, tally, close);
    lemma_total_sum(bumps, Counter::ResponseOk);
    lemma_total_sum(bumps, Counter::Command(verb, Outcome::Success));
    lemma_total_sum(bumps, Counter::Command(verb, Outcome::Hit));
    lemma_total_sum(bumps, Counter::Command(verb, Outcome::Miss));
    lemma_total_sum(bumps, Counter::Command(verb, Outcome::Stored));
    lemma_total_sum(bumps, Counter::Command(verb, Outcome::Deleted));
    lemma_total_sum(bumps, Counter::Command(verb, Outcome::Exception));
    lemma_total_sum(bumps, Counter::Session);
    lemma_total_sum(bumps, Counter::SessionClosedClient);
    lemma_total_sum(bumps, Counter::ResponseTimeout);
    lemma_total_sum(bumps, Counter::ResponseEx);
    lemma_total_sum(bumps, Counter::SessionClosedServer);
}

/// Session accounting for one step: a connection that is closed, by either
/// side, or still held after the step was opened by the step or held before
/// it.
pub proof fn lemma_step_sessions(s: DriverSettings, c: Control, running: bool, event: Event)
    ensures
        ({
            let t = transition(s, c, running, event);
            total(t.bumps, Counter::Session) + open_sessions(c.phase) >= total(
                t.bumps,
                Counter::SessionClosedClient,
            ) + total(t.bumps, Counter::SessionClosedServer) + open_sessions(t.control.phase)
        }),
{
    let t = transition(s, c, running, event);
    lemma_total_sum(t.bumps, Counter::Session);
    lemma_total_sum(t.bumps, Counter::SessionClosedClient);
    lemma_total_sum(t.bumps, Counter::SessionClosedServer);
}

/// Session accounting over a whole run: the sessions opened, plus the one
/// held at the start if any, cover every session closed by the client or by
/// the server and the one held at the end. So after `k` transport faults,
/// each of which closes a session on the client side, a driver that holds a
/// connection again has opened at least `k` sessions.
pub proof fn lemma_run_sessions(s: DriverSettings, c: Control, inputs: Seq<Input>)
    ensures
        total(run_bumps(s, c, inputs), Counter::Session) + open_sessions(c.phase) >= total(
            run_bumps(s, c, inputs),
            Counter::SessionClosedClient,
        ) + total(run_bumps(s, c, inputs), Counter::SessionClosedServer) + open_sessions(
            run_control(s, c, inputs).phase,
        ),
    decreases inputs.len(),
{
    if inputs.len() > 0 {
        let earlier = inputs.drop_last();
        let mid = run_control(s, c, earlier);
        let t = transition(s, mid, inputs.last().running, inputs.last().event);
        lemma_run_sessions(s, c, earlier);
        lemma_step_sessions(s, mid, inputs.last().running, inputs.last().event);
        lemma_total_concat(run_bumps(s, c, earlier), t.bumps, Counter::Session);
        lemma_total_concat(run_bumps(s, c, earlier), t.bumps, Counter::SessionClosedClient);
        lemma_total_concat(run_bumps(s, c, earlier), t.bumps, Counter::SessionClosedServer);
    }
}

/// True for the events that report a transport fault during a request: an
/// exception, a timeout, or a partial read after the time allowed.
pub open spec fn is_fault(s: DriverSettings, event: Event) -> bool {
    ||| event is Exception
    ||| event is TimedOut
    ||| event matches Event::Incomplete { elapsed_ns } && remaining_budget(
        s.request_timeout_ns,
        elapsed_ns,
    ) == 0
}

/// A transport fault during a request closes the session on the client side
/// exactly once and opens none, whether or not the run is still on. While
/// the run is on the driver then reconnects; once it is over the driver
/// stops.
pub proof fn lemma_fault_closes_once(s: DriverSettings, c: Control, running: bool, event: Event)
    requires
        c.phase is InFlight,
        is_fault(s, event),
    ensures
        ({
            let t = transition(s, c, running, event);
            &&& total(t.bumps, Counter::SessionClosedClient) == 1
            &&& total(t.bumps, Counter::Session) == 0
            &&& running ==> t.control.phase is Connecting && t.action == (Action::Connect {
                timeout_ms: s.connect_timeout_ms,
                reconnect: c.connected_before,
            })
            &&& !running ==> t.control.phase is Stopped && t.action is Exit
        }),
{
    let t = transition(s, c, running, event);
    lemma_total_sum(t.bumps, Counter::SessionClosedClient);
    lemma_total_sum(t.bumps, Counter::Session);
}

/// A request that runs out of time is counted as exactly one response
/// timeout and as no response of another kind, whether or not the run is
/// still on.
pub proof fn lemma_timeout_counted_once(
    s: DriverSettings,
    c: Control,
    running: bool,
    event: Event,
)
    requires
        c.phase is InFlight,
        event is TimedOut || (event matches Event::Incomplete { elapsed_ns } && remaining_budget(
            s.request_timeout_ns,
            elapsed_ns,
        ) == 0),
    ensures
        ({
            let t = transition(s, c, running, event);
            &&& total(t.bumps, Counter::ResponseTimeout) == 1
            &&& total(t.bumps, Counter::ResponseOk) == 0
            &&& total(t.bumps, Counter::ResponseEx) == 0
        }),
{
    let t = transition(s, c, running, event);
    lemma_total_sum(t.bumps, Counter::ResponseTimeout);
    lemma_total_sum(t.bumps, Counter::ResponseOk);
    lemma_total_sum(t.bumps, Counter::ResponseEx);
}

/// While a response is incomplete and time is left, the driver goes on
/// reading for exactly the time left: the time spent and the time still
/// allowed add up to the request timeout.
pub proof fn lemma_read_budget(s: DriverSettings, c: Control, elapsed_ns: u64)
    requires
        c.phase is InFlight,
        elapsed_ns < s.request_timeout_ns,
    ensures
        ({
            let t = transition(s, c, true, Event::Incomplete { elapsed_ns });
            &&& t.control == c
            &&& t.bumps.len() == 0
            &&& t.action matches Action::Read { timeout_ns }
            &&& timeout_ns + elapsed_ns == s.request_timeout_ns
        }),
{
}

/// Once the run is over the driver stops, whatever it was doing. It counts
/// the outcome of the request in flight, if the event brings one, exactly
/// as it would while the run is on, and nothing else.
pub proof fn lemma_shutdown_stops(s: DriverSettings, c: Control, event: Event)
    ensures
        transition(s, c, false, event).control.phase is Stopped,
        transition(s, c, false, event).action is Exit,
        c.phase is InFlight && ends_request(s, event) ==> transition(s, c, false, event).bumps
            == transition(s, c, true, event).bumps && transition(s, c, false, event).latency
            == transition(s, c, true, event).latency,
        !(c.phase is InFlight && ends_request(s, event)) ==> transition(
            s,
            c,
            false,
            event,
        ).bumps.len() == 0,
{
}

/// A stopped driver stays stopped and counts nothing, whatever it is told.
pub proof fn lemma_stopped_counts_nothing(s: DriverSettings, c: Control, inputs: Seq<Input>)
    requires
        c.phase is Stopped,
    ensures
        run_control(s, c, inputs) == c,
        run_bumps(s, c, inputs).len() == 0,
    decreases inputs.len(),
{
    if inputs.len() > 0 {
        lemma_stopped_counts_nothing(s, c, inputs.drop_last());
    }
}

/// A closed work queue ends the task without counting anything.
pub proof fn lemma_queue_closed_ends(s: DriverSettings, c: Control)
    requires
        c.phase is Ready,
    ensures
        transition(s, c, true, Event::QueueClosed).control.phase is Stopped,
        transition(s, c, true, Event::QueueClosed).bumps.len() == 0,
{
}

/// A reconnect item closes the session on the client side exactly once and
/// makes the driver connect again; the connection that follows counts as
/// exactly one connect and one session.
pub proof fn lemma_reconnect_item(s: DriverSettings, c: Control)
    requires
        c.phase is Ready,
    ensures
        ({
            let t = transition(s, c, true, Event::Work(WorkKind::Reconnect));
            let u = transition(s, t.control, true, Event::Connected);
            &&& total(t.bumps, Counter::SessionClosedClient) == 1
            &&& total(t.bumps, Counter::RequestReconnect) == 1
            &&& total(t.bumps, Counter::Connect) == 0
            &&& t.control.phase is Connecting
            &&& total(u.bumps, Counter::Connect) == 1
            &&& total(u.bumps, Counter::Session) == 1
            &&& total(u.bumps, Counter::SessionClosedClient) == 0
            &&& u.control.phase is Ready
        }),
{
    let t = transition(s, c, true, Event::Work(WorkKind::Reconnect));
    let u = transition(s, t.control, true, Event::Connected);
    lemma_total_sum(t.bumps, Counter::SessionClosedClient);
    lemma_total_sum(t.bumps, Counter::RequestReconnect);
    lemma_total_sum(t.bumps, Counter::Connect);
    lemma_total_sum(u.bumps, Counter::Connect);
    lemma_total_sum(u.bumps, Counter::Session);
    lemma_total_sum(u.bumps, Counter::SessionClosedClient);
}

/// A command that the protocol cannot carry out is counted as unsupported
/// and the connection is kept.
pub proof fn lemma_unsupported_keeps_connection(s: DriverSettings, c: Control, verb: Verb)
    requires
        c.phase is Ready,
        !supports(s.protocol, verb),
    ensures
        ({
            let t = transition(s, c, true, Event::Work(WorkKind::Command(verb)));
            &&& total(t.bumps, Counter::RequestUnsupported) == 1
            &&& total(t.bumps, Counter::SessionClosedClient) == 0
            &&& t.control.phase is Ready
            &&& t.action is Receive
        }),
{
    let t = transition(s, c, true, Event::Work(WorkKind::Command(verb)));
    lemma_total_sum(t.bumps, Counter::RequestUnsupported);
    lemma_total_sum(t.bumps, Counter::SessionClosedClient);
}

/// A counter after a step is its value before plus what the step adds to
/// it, or the largest value if that is less. So no counter ever goes down.
pub proof fn lemma_bumped_value(before: u64, name: Counter, bumps: Seq<Bump>)
    ensures
        bumped(before, name, bumps) == if before + total(bumps, name) > u64::MAX {
            u64::MAX as int
        } else {
            before + total(bumps, name)
        },
        bumped(before, name, bumps) >= before,
    decreases bumps.len(),
{
    if bumps.len() > 0 {
        lemma_bumped_value(before, name, bumps.drop_last());
    }
}


/// One if a driver in this phase waits for a response, zero otherwise.
pub open spec fn in_flight(phase: Phase) -> nat {
    if phase is InFlight {
        1
    } else {
        0
    }
}

/// True when the run is on at every input.
pub open spec fn all_running(inputs: Seq<Input>) -> bool {
    forall|i: int| 0 <= i < inputs.len() ==> (#[trigger] inputs[i]).running
}

/// A run that is on at every input awaits every outcome.
pub proof fn lemma_running_awaits(s: DriverSettings, inputs: Seq<Input>)
    requires
        all_running(inputs),
    ensures
        outcomes_awaited(s, inputs),
{
}

/// True when no input reports a request that ran out of time.
pub open spec fn no_timeouts(s: DriverSettings, inputs: Seq<Input>) -> bool {
    forall|i: int|
        0 <= i < inputs.len() ==> !((#[trigger] inputs[i]).event is TimedOut) && !(
        inputs[i].event matches Event::Incomplete { elapsed_ns } && remaining_budget(
            s.request_timeout_ns,
            elapsed_ns,
        ) == 0)
}

/// True when no input reports an exception.
pub open spec fn no_exceptions(inputs: Seq<Input>) -> bool {
    forall|i: int| 0 <= i < inputs.len() ==> !((#[trigger] inputs[i]).event is Exception)
}

/// True when every work item among the inputs is a command that the
/// protocol can carry out.
pub open spec fn only_supported(s: DriverSettings, inputs: Seq<Input>) -> bool {
    forall|i: int|
        0 <= i < inputs.len() ==> ((#[trigger] inputs[i]).event matches Event::Work(kind) ==> (
        kind matches WorkKind::Command(verb) && supports(s.protocol, verb)))
}

/// Request accounting for one step: every item pulled is counted as a
/// request and as exactly one of sent, unsupported and reconnect.
pub proof fn lemma_step_requests(s: DriverSettings, c: Control, running: bool, event: Event)
    ensures
        ({
            let t = transition(s, c, running, event);
            total(t.bumps, Counter::Request) == total(t.bumps, Counter::RequestOk) + total(
                t.bumps,
                Counter::RequestUnsupported,
            ) + total(t.bumps, Counter::RequestReconnect)
        }),
{
    let t = transition(s, c, running, event);
    lemma_total_sum(t.bumps, Counter::Request);
    lemma_total_sum(t.bumps, Counter::RequestOk);
    lemma_total_sum(t.bumps, Counter::RequestUnsupported);
    lemma_total_sum(t.bumps, Counter::RequestReconnect);
}

/// Request accounting over a whole run: the requests counted are those
/// sent, those unsupported and the reconnects, together.
pub proof fn lemma_run_requests(s: DriverSettings, c: Control, inputs: Seq<Input>)
    ensures
        total(run_bumps(s, c, inputs), Counter::Request) == total(
            run_bumps(s, c, inputs),
            Counter::RequestOk,
        ) + total(run_bumps(s, c, inputs), Counter::RequestUnsupported) + total(
            run_bumps(s, c, inputs),
            Counter::RequestReconnect,
        ),
    decreases inputs.len(),
{
    if inputs.len() > 0 {
        let earlier = inputs.drop_last();
        let mid = run_control(s, c, earlier);
        let t = transition(s, mid, inputs.last().running, inputs.last().event);
        lemma_run_requests(s, c, earlier);
        lemma_step_requests(s, mid, inputs.last().running, inputs.last().event);
        lemma_total_concat(run_bumps(s, c, earlier), t.bumps, Counter::Request);
        lemma_total_concat(run_bumps(s, c, earlier), t.bumps, Counter::RequestOk);
        lemma_total_concat(run_bumps(s, c, earlier), t.bumps, Counter::RequestUnsupported);
        lemma_total_concat(run_bumps(s, c, earlier), t.bumps, Counter::RequestReconnect);
    }
}

/// One if the step gives up the request in flight: the run is over and the
/// event does not bring the request's outcome. Zero otherwise.
pub open spec fn abandons(s: DriverSettings, c: Control, running: bool, event: Event) -> nat {
    if !running && c.phase is InFlight && !ends_request(s, event) {
        1
    } else {
        0
    }
}

/// The number of requests given up in a run.
pub open spec fn run_abandoned(s: DriverSettings, c: Control, inputs: Seq<Input>) -> nat
    decreases inputs.len(),
{
    if inputs.len() == 0 {
        0
    } else {
        run_abandoned(s, c, inputs.drop_last()) + abandons(
            s,
            run_control(s, c, inputs.drop_last()),
            inputs.last().running,
            inputs.last().event,
        )
    }
}

/// True when every input either finds the run on or brings the outcome of
/// a request.
pub open spec fn outcomes_awaited(s: DriverSettings, inputs: Seq<Input>) -> bool {
    forall|i: int|
        0 <= i < inputs.len() ==> (#[trigger] inputs[i]).running || ends_request(
            s,
            inputs[i].event,
        )
}

/// Response accounting for one step: a request that is sent, or was in
/// flight before the step, is answered, fails, times out, is still in
/// flight after it, or is given up because the run is over.
pub proof fn lemma_step_responses(s: DriverSettings, c: Control, running: bool, event: Event)
    ensures
        ({
            let t = transition(s, c, running, event);
            total(t.bumps, Counter::RequestOk) + in_flight(c.phase) == total(
                t.bumps,
                Counter::ResponseOk,
            ) + total(t.bumps, Counter::ResponseEx) + total(t.bumps, Counter::ResponseTimeout)
                + in_flight(t.control.phase) + abandons(s, c, running, event)
        }),
{
    let t = transition(s, c, running, event);
    lemma_total_sum(t.bumps, Counter::RequestOk);
    lemma_total_sum(t.bumps, Counter::ResponseOk);
    lemma_total_sum(t.bumps, Counter::ResponseEx);
    lemma_total_sum(t.bumps, Counter::ResponseTimeout);
}

/// Response accounting over a whole run: the requests sent, and the one in
/// flight at the start if any, are the responses understood, failed and
/// timed out, the request in flight at the end, and the requests given up.
/// Every request sent ends in exactly one of these ways.
pub proof fn lemma_run_responses(s: DriverSettings, c: Control, inputs: Seq<Input>)
    ensures
        ({
            let bumps = run_bumps(s, c, inputs);
            total(bumps, Counter::RequestOk) + in_flight(c.phase) == total(
                bumps,
                Counter::ResponseOk,
            ) + total(bumps, Counter::ResponseEx) + total(bumps, Counter::ResponseTimeout)
                + in_flight(run_control(s, c, inputs).phase) + run_abandoned(s, c, inputs)
        }),
    decreases inputs.len(),
{
    if inputs.len() > 0 {
        let earlier = inputs.drop_last();
        let mid = run_control(s, c, earlier);
        let t = transition(s, mid, inputs.last().running, inputs.last().event);
        lemma_run_responses(s, c, earlier);
        lemma_step_responses(s, mid, inputs.last().running, inputs.last().event);
        lemma_total_concat(run_bumps(s, c, earlier), t.bumps, Counter::RequestOk);
        lemma_total_concat(run_bumps(s, c, earlier), t.bumps, Counter::ResponseOk);
        lemma_total_concat(run_bumps(s, c, earlier), t.bumps, Counter::ResponseEx);
        lemma_total_concat(run_bumps(s, c, earlier), t.bumps, Counter::ResponseTimeout);
    }
}

/// No request is given up in a run in which every input either finds the
/// run on or brings the outcome of a request. So none is given up while the
/// run is on, nor when the run ends as the outcome of the last request
/// comes in.
pub proof fn lemma_none_abandoned(s: DriverSettings, c: Control, inputs: Seq<Input>)
    requires
        outcomes_awaited(s, inputs),
    ensures
        run_abandoned(s, c, inputs) == 0,
    decreases inputs.len(),
{
    if inputs.len() > 0 {
        let earlier = inputs.drop_last();
        assert forall|i: int| 0 <= i < earlier.len() implies (#[trigger] earlier[i]).running
            || ends_request(s, earlier[i].event) by {
            assert(earlier[i] == inputs[i]);
        }
        assert(inputs.last() == inputs[inputs.len() - 1]);
        lemma_none_abandoned(s, c, earlier);
    }
}

/// A run without timeouts, exceptions, reconnects and unsupported commands
/// counts none of them.
pub proof fn lemma_run_quiet(s: DriverSettings, c: Control, inputs: Seq<Input>)
    ensures
        no_timeouts(s, inputs) ==> total(run_bumps(s, c, inputs), Counter::ResponseTimeout) == 0,
        no_exceptions(inputs) ==> total(run_bumps(s, c, inputs), Counter::ResponseEx) == 0,
        only_supported(s, inputs) ==> total(run_bumps(s, c, inputs), Counter::RequestUnsupported)
            == 0 && total(run_bumps(s, c, inputs), Counter::RequestReconnect) == 0,
    decreases inputs.len(),
{
    if inputs.len() > 0 {
        let earlier = inputs.drop_last();
        let mid = run_control(s, c, earlier);
        let last = inputs.last();
        let t = transition(s, mid, last.running, last.event);
        lemma_run_quiet(s, c, earlier);
        lemma_total_concat(run_bumps(s, c, earlier), t.bumps, Counter::ResponseTimeout);
        lemma_total_concat(run_bumps(s, c, earlier), t.bumps, Counter::ResponseEx);
        lemma_total_concat(run_bumps(s, c, earlier), t.bumps, Counter::RequestUnsupported);
        lemma_total_concat(run_bumps(s, c, earlier), t.bumps, Counter::RequestReconnect);
        lemma_total_sum(t.bumps, Counter::ResponseTimeout);
        lemma_total_sum(t.bumps, Counter::ResponseEx);
        lemma_total_sum(t.bumps, Counter::RequestUnsupported);
        lemma_total_sum(t.bumps, Counter::RequestReconnect);
        assert(last == inputs[inputs.len() - 1]);
        if no_timeouts(s, inputs) {
            assert forall|i: int| 0 <= i < earlier.len() implies !((#[trigger] earlier[i]).event
                is TimedOut) && !(earlier[i].event matches Event::Incomplete { elapsed_ns }
                && remaining_budget(s.request_timeout_ns, elapsed_ns) == 0) by {
                assert(earlier[i] == inputs[i]);
            }
        }
        if no_exceptions(inputs) {
            assert forall|i: int| 0 <= i < earlier.len() implies !((#[trigger] earlier[i]).event
                is Exception) by {
                assert(earlier[i] == inputs[i]);
            }
        }
        if only_supported(s, inputs) {
            assert forall|i: int| 0 <= i < earlier.len() implies ((#[trigger] earlier[i]).event
                matches Event::Work(kind) ==> (kind matches WorkKind::Command(verb) && supports(
                s.protocol,
                verb,
            ))) by {
                assert(earlier[i] == inputs[i]);
            }
        }
    }
}

/// A run against a service that answers every request, up to and
/// including the step at which the run ends: with only supported commands
/// in the queue and neither exceptions nor timeouts, every request counted
/// is answered once no request is in flight, and no timeout is counted.
pub proof fn lemma_answered_run(s: DriverSettings, c: Control, inputs: Seq<Input>)
    requires
        outcomes_awaited(s, inputs),
        only_supported(s, inputs),
        no_exceptions(inputs),
        no_timeouts(s, inputs),
        !(c.phase is InFlight),
        !(run_control(s, c, inputs).phase is InFlight),
    ensures
        total(run_bumps(s, c, inputs), Counter::ResponseOk) == total(
            run_bumps(s, c, inputs),
            Counter::Request,
        ),
        total(run_bumps(s, c, inputs), Counter::ResponseTimeout) == 0,
{
    lemma_run_requests(s, c, inputs);
    lemma_run_responses(s, c, inputs);
    lemma_run_quiet(s, c, inputs);
    lemma_none_abandoned(s, c, inputs);
}

/// A run against a service that never answers, up to and including the
/// step at which the run ends: with only supported commands in the queue
/// and no response or exception, every request counted has timed out once
/// no request is in flight, and the sessions opened, with the one held at
/// the start, cover them.
pub proof fn lemma_silent_run(s: DriverSettings, c: Control, inputs: Seq<Input>)
    requires
        outcomes_awaited(s, inputs),
        only_supported(s, inputs),
        no_exceptions(inputs),
        forall|i: int| 0 <= i < inputs.len() ==> !((#[trigger] inputs[i]).event is Response),
        !(c.phase is InFlight),
        !(run_control(s, c, inputs).phase is InFlight),
    ensures
        total(run_bumps(s, c, inputs), Counter::ResponseTimeout) == total(
            run_bumps(s, c, inputs),
            Counter::Request,
        ),
        total(run_bumps(s, c, inputs), Counter::Session) + open_sessions(c.phase) >= total(
            run_bumps(s, c, inputs),
            Counter::Request,
        ),
{
    lemma_run_requests(s, c, inputs);
    lemma_run_responses(s, c, inputs);
    lemma_run_quiet(s, c, inputs);
    lemma_none_abandoned(s, c, inputs);
    lemma_run_unanswered(s, c, inputs);
    lemma_run_sessions(s, c, inputs);
    lemma_run_timeout_closes(s, c, inputs);
}

/// A run without responses counts no understood response.
pub proof fn lemma_run_unanswered(s: DriverSettings, c: Control, inputs: Seq<Input>)
    requires
        forall|i: int| 0 <= i < inputs.len() ==> !((#[trigger] inputs[i]).event is Response),
    ensures
        total(run_bumps(s, c, inputs), Counter::ResponseOk) == 0,
    decreases inputs.len(),
{
    if inputs.len() > 0 {
        let earlier = inputs.drop_last();
        let mid = run_control(s, c, earlier);
        let last = inputs.last();
        let t = transition(s, mid, last.running, last.event);
        assert forall|i: int| 0 <= i < earlier.len() implies !((#[trigger] earlier[i]).event
            is Response) by {
            assert(earlier[i] == inputs[i]);
        }
        assert(last == inputs[inputs.len() - 1]);
        lemma_run_unanswered(s, c, earlier);
        lemma_total_concat(run_bumps(s, c, earlier), t.bumps, Counter::ResponseOk);
        lemma_total_sum(t.bumps, Counter::ResponseOk);
    }
}

/// Every timeout counted closes a session on the client side.
pub proof fn lemma_run_timeout_closes(s: DriverSettings, c: Control, inputs: Seq<Input>)
    ensures
        total(run_bumps(s, c, inputs), Counter::SessionClosedClient) >= total(
            run_bumps(s, c, inputs),
            Counter::ResponseTimeout,
        ),
    decreases inputs.len(),
{
    if inputs.len() > 0 {
        let earlier = inputs.drop_last();
        let mid = run_control(s, c, earlier);
        let last = inputs.last();
        let t = transition(s, mid, last.running, last.event);
        lemma_run_timeout_closes(s, c, earlier);
        lemma_total_concat(run_bumps(s, c, earlier), t.bumps, Counter::SessionClosedClient);
        lemma_total_concat(run_bumps(s, c, earlier), t.bumps, Counter::ResponseTimeout);
        lemma_total_sum(t.bumps, Counter::SessionClosedClient);
        lemma_total_sum(t.bumps, Counter::ResponseTimeout);
    }
}

/// A run without exceptions counts no exception of any command.
pub proof fn lemma_run_no_command_exception(
    s: DriverSettings,
    c: Control,
    inputs: Seq<Input>,
    verb: Verb,
)
    requires
        no_exceptions(inputs),
    ensures
        total(run_bumps(s, c, inputs), Counter::Command(verb, Outcome::Exception)) == 0,
    decreases inputs.len(),
{
    if inputs.len() > 0 {
        let earlier = inputs.drop_last();
        let mid = run_control(s, c, earlier);
        let last = inputs.last();
        let t = transition(s, mid, last.running, last.event);
        let name = Counter::Command(verb, Outcome::Exception);
        assert forall|i: int| 0 <= i < earlier.len() implies !((#[trigger] earlier[i]).event
            is Exception) by {
            assert(earlier[i] == inputs[i]);
        }
        assert(last == inputs[inputs.len() - 1]);
        lemma_run_no_command_exception(s, c, earlier, verb);
        lemma_total_concat(run_bumps(s, c, earlier), t.bumps, name);
        lemma_total_sum(t.bumps, name);
    }
}

/// The latency that a step carries for the heatmap: that of an understood
/// response to the request in flight, whether or not the run is still on,
/// and none in any other step.
pub proof fn lemma_latency_carried(s: DriverSettings, c: Control, running: bool, event: Event)
    ensures
        transition(s, c, running, event).latency == if c.phase is InFlight {
            match event {
                Event::Response { latency_ns, tally, close } => Some(latency_ns),
                _ => None,
            }
        } else {
            None
        },
{
}


/// The longest that the program waits on an action, in nanoseconds: the
/// timeout or delay that the action carries. An exit takes no time.
pub open spec fn wait_ns(action: Action) -> nat {
    match action {
        Action::Connect { timeout_ms, reconnect } => timeout_ms as nat * 1_000_000,
        Action::Sleep { ms } => ms as nat * 1_000_000,
        Action::Receive { timeout_ms } => timeout_ms as nat * 1_000_000,
        Action::Send { verb, timeout_ns } => timeout_ns as nat,
        Action::Read { timeout_ns } => timeout_ns as nat,
        Action::Exit => 0,
    }
}

/// The longer of the request timeout and the connect timeout, and a second
/// more, in nanoseconds.
pub open spec fn exit_bound_ns(s: DriverSettings) -> nat {
    let connect = s.connect_timeout_ms as nat * 1_000_000;
    let request = s.request_timeout_ns as nat;
    (if connect >= request {
        connect
    } else {
        request
    }) + 1_000_000_000
}

/// Bounded exit: no action makes the program wait longer than the longer of
/// the two timeouts and a second more, and the step that follows the end of
/// the run asks for the exit. So a task whose actions keep to their
/// timeouts returns within that bound after the run ends, from any phase.
pub proof fn lemma_exit_bounded(s: DriverSettings, c: Control, running: bool, event: Event)
    ensures
        wait_ns(transition(s, c, running, event).action) <= exit_bound_ns(s),
        !running ==> transition(s, c, running, event).action is Exit,
{
}

} // verus!
