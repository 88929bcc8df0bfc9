//! The workload generator: pacing, and the production of work items.

use crate::config::Config;
use crate::keyspace::Verb;
use crate::workload::{build_request, can_build, request_fits, ClientWorkItem};
use vstd::prelude::*;

verus! {

/// Nanoseconds per second.
pub const SECOND_NS: u64 = 1_000_000_000;

/// The shortest interval between two ticks of a paced generator, in
/// nanoseconds: one millisecond.
pub const MIN_INTERVAL_NS: u64 = 1_000_000;

/// How a paced generator spends its rate: `quanta` items back-to-back every
/// `interval_ns` nanoseconds.
#[derive(Clone, Copy, Debug, PartialEq, Eq, Structural)]
pub struct Pacing {
    pub quanta: u64,
    pub interval_ns: u64,
}

/// The pacing for `rate` items per second: the fewest items per tick for
/// which the interval is a millisecond or more, and the interval, rounded
/// down to the nanosecond, in which the rate yields that many items.
pub open spec fn pacing_for(rate: u32) -> Pacing {
    let quanta = (rate + 999) / 1000;
    Pacing { quanta: quanta as u64, interval_ns: (quanta * 1_000_000_000 / rate as int) as u64 }
}

/// Chooses the pacing for a rate.
pub fn convert_ratelimit(rate: u32) -> (out: Pacing)
    requires
        rate >= 1,
    ensures
        out == pacing_for(rate),
        out.quanta >= 1,
        out.interval_ns >= MIN_INTERVAL_NS,
        (out.quanta - 1) * 1000 < rate <= out.quanta * 1000,
        rate * out.interval_ns <= out.quanta * SECOND_NS < rate * (out.interval_ns + 1),
{
    let quanta: u64 = (rate as u64 + 999) / 1000;
    assert(quanta * 1_000_000_000 <= 4_300_000 * 1_000_000_000) by (nonlinear_arith)
        requires
            quanta <= 4_300_000,
    ;
    let total: u64 = quanta * SECOND_NS;
    let interval_ns: u64 = total / (rate as u64);
    proof {
        let r = rate as int;
        let t = total as int;
        let i = interval_ns as int;
        assert(t >= r * 1_000_000) by (nonlinear_arith)
            requires
                t == quanta * 1_000_000_000,
                quanta * 1000 >= r,
        ;
        assert(i == t / r);
        assert(r * i <= t < r * (i + 1)) by (nonlinear_arith)
            requires
                i == t / r,
                r >= 1,
        ;
        assert(i >= 1_000_000) by (nonlinear_arith)
            requires
                t >= r * 1_000_000,
                t < r * (i + 1),
                r >= 1,
        ;
    }
    Pacing { quanta, interval_ns }
}

/// What the generator asks the program to do next.
#[derive(Clone, Copy, Debug, PartialEq, Eq, Structural)]
pub enum GeneratorAction {
    /// Wait for the next tick of a timer with this period.
    WaitTick { interval_ns: u64 },
    /// Produce one work item and submit it.
    Emit,
    /// End the task.
    Exit,
}

/// The state of a generator task.
#[derive(Clone, Copy, Debug, PartialEq, Eq, Structural)]
pub struct Generator {
    /// `None` for a generator that runs as fast as the queue allows.
    pub pacing: Option<Pacing>,
    /// The items of the current tick that are still to be produced.
    pub remaining: u64,
    /// The sequence number of the next request.
    pub sequence: u64,
}

/// What a generator does next, and how many items of the tick are then
/// still to be produced.
///
/// When the run is over the generator exits; the run is looked at before
/// every item. An unpaced generator emits item after item. A paced
/// generator waits for a tick and then emits its quanta of items, one per
/// step, back-to-back.
pub open spec fn generator_step(g: Generator, running: bool) -> (u64, GeneratorAction) {
    if !running {
        (0, GeneratorAction::Exit)
    } else {
        match g.pacing {
            None => (0, GeneratorAction::Emit),
            Some(p) => if g.remaining > 0 {
                ((g.remaining - 1) as u64, GeneratorAction::Emit)
            } else {
                (p.quanta, GeneratorAction::WaitTick { interval_ns: p.interval_ns })
            },
        }
    }
}

/// The actions of `steps` steps of a generator while the run is on.
pub open spec fn generator_run(g: Generator, steps: nat) -> Seq<GeneratorAction>
    decreases steps,
{
    if steps == 0 {
        Seq::empty()
    } else {
        seq![generator_step(g, true).1] + generator_run(
            Generator { remaining: generator_step(g, true).0, ..g },
            (steps - 1) as nat,
        )
    }
}

/// A paced generator that has produced the items of its tick waits for the
/// next tick and then emits exactly its quanta of items before it waits
/// again.
pub proof fn lemma_tick_emits_quanta(g: Generator, k: nat)
    requires
        g.pacing is Some,
        g.remaining == 0,
        k <= g.pacing->0.quanta,
    ensures
        generator_run(g, k + 1).len() == k + 1,
        generator_run(g, k + 1)[0] == (GeneratorAction::WaitTick {
            interval_ns: g.pacing->0.interval_ns,
        }),
        forall|i: int|
            1 <= i <= k ==> (#[trigger] generator_run(g, k + 1)[i]) == GeneratorAction::Emit,
        k == g.pacing->0.quanta ==> generator_step(
            Generator { remaining: 0, ..g },
            true,
        ).1 is WaitTick,
{
    let next = Generator { remaining: g.pacing->0.quanta, ..g };
    assert(generator_run(g, k + 1) == seq![generator_step(g, true).1] + generator_run(next, k));
    lemma_emits(next, k);
}

/// A paced generator with items of its tick left emits them one per step.
pub proof fn lemma_emits(g: Generator, k: nat)
    requires
        g.pacing is Some,
        k <= g.remaining,
    ensures
        generator_run(g, k).len() == k,
        forall|i: int| 0 <= i < k ==> (#[trigger] generator_run(g, k)[i]) == GeneratorAction::Emit,
    decreases k,
{
    if k > 0 {
        let next = Generator { remaining: (g.remaining - 1) as u64, ..g };
        lemma_emits(next, (k - 1) as nat);
        assert(generator_run(g, k) == seq![GeneratorAction::Emit] + generator_run(
            next,
            (k - 1) as nat,
        ));
    }
}

/// True when `item` is a work item that the configuration can produce with
/// the sequence number `sequence`: a reconnect, or a request that fits a
/// command of positive weight in a keyspace of positive weight.
pub open spec fn item_fits(config: &Config, sequence: u64, item: ClientWorkItem) -> bool {
    exists|i: int, j: int|
        {
            &&& 0 <= i < config.keyspaces.len()
            &&& 0 <= j < config.keyspaces@[i].commands.len()
            &&& config.keyspaces@[i].weight > 0
            &&& (#[trigger] config.keyspaces@[i].commands@[j]).weight > 0
            &&& match item {
                ClientWorkItem::Reconnect => config.keyspaces@[i].commands@[j].verb is Reconnect,
                ClientWorkItem::Request { request, sequence: number } => {
                    &&& number == sequence
                    &&& !(config.keyspaces@[i].commands@[j].verb is Reconnect)
                    &&& request_fits(
                        &config.keyspaces@[i],
                        config.keyspaces@[i].commands@[j].verb,
                        request,
                    )
                },
            }
        }
}

impl Generator {
    /// A generator for the given rate, in items per second; `None` is
    /// unpaced. Sequence numbers start at zero.
    pub fn new(rate: Option<u32>) -> (out: Self)
        requires
            rate != Some(0u32),
        ensures
            out.sequence == 0,
            out.remaining == 0,
            out.pacing == match rate {
                Some(r) => Some(pacing_for(r)),
                None => None,
            },
    {
        let pacing = match rate {
            Some(r) => Some(convert_ratelimit(r)),
            None => None,
        };
        Generator { pacing, remaining: 0, sequence: 0 }
    }

    /// Decides what the generator task does next. `running` is the state of
    /// the run as the task sees it now.
    pub fn get_requests(&mut self, running: bool) -> (action: GeneratorAction)
        ensures
            action == generator_step(*old(self), running).1,
            final(self).remaining == generator_step(*old(self), running).0,
            final(self).pacing == old(self).pacing,
            final(self).sequence == old(self).sequence,
    {
        if !running {
            self.remaining = 0;
            return GeneratorAction::Exit;
        }
        match self.pacing {
            None => {
                self.remaining = 0;
                GeneratorAction::Emit
            },
            Some(p) => {
                if self.remaining > 0 {
                    self.remaining = self.remaining - 1;
                    GeneratorAction::Emit
                } else {
                    self.remaining = p.quanta;
                    GeneratorAction::WaitTick { interval_ns: p.interval_ns }
                }
            },
        }
    }

    /// Produces one work item: draws a keyspace, a command of it, and the
    /// request for that command. A request takes the next sequence number;
    /// a reconnect takes none. At the largest sequence number counting
    /// starts over.
    pub fn generate(&mut self, config: &Config, rng: &mut rand_xoshiro::Xoshiro256Plus) -> (item:
        ClientWorkItem)
        requires
            config.wf(),
        ensures
            item_fits(config, old(self).sequence, item),
            final(self).pacing == old(self).pacing,
            final(self).remaining == old(self).remaining,
            final(self).sequence == match item {
                ClientWorkItem::Reconnect => old(self).sequence,
                ClientWorkItem::Request { .. } => if old(self).sequence == u64::MAX {
                    0
                } else {
                    (old(self).sequence + 1) as u64
                },
            },
    {
        let keyspace = config.choose_keyspace(rng);
        let command = keyspace.choose_command(rng);
        let verb = command.verb;
        proof {
            assert(keyspace.commands@.contains(*command));
            if verb.addresses_inner_keys() {
                assert(crate::keyspace::any_addresses_inner_keys(keyspace.commands@));
            }
            if verb.writes() {
                assert(crate::keyspace::any_writes(keyspace.commands@));
            }
            assert(can_build(keyspace, verb));
        }
        match verb {
            Verb::Reconnect => ClientWorkItem::Reconnect,
            _ => {
                let request = build_request(keyspace, verb, rng).unwrap();
                let sequence = self.sequence;
                self.sequence = if sequence == u64::MAX {
                    0
                } else {
                    sequence + 1
                };
                ClientWorkItem::Request { request, sequence }
            },
        }
    }
}

} // verus!
