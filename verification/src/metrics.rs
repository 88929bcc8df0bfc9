//! Outcome counters: a flat set of monotonic counters addressed by name.

use crate::keyspace::Verb;
use vstd::prelude::*;

verus! {

/// How a command ended, as far as the counters tell apart.
#[derive(Clone, Copy, Debug, PartialEq, Eq, Structural)]
pub enum Outcome {
    /// The command completed.
    Success,
    /// The command failed.
    Exception,
    /// The item looked for was there.
    Hit,
    /// The item looked for was not there.
    Miss,
    /// The item was stored.
    Stored,
    /// The item was removed.
    Deleted,
}

/// The name of a counter.
#[derive(Clone, Copy, Debug, PartialEq, Eq, Structural)]
pub enum Counter {
    Connect,
    ConnectEx,
    ConnectTimeout,
    Session,
    SessionClosedClient,
    SessionClosedServer,
    Request,
    RequestOk,
    RequestReconnect,
    RequestUnsupported,
    ResponseOk,
    ResponseEx,
    ResponseTimeout,
    /// The counter of one outcome of one command.
    Command(Verb, Outcome),
}

/// The number of commands.
pub const VERBS: usize = 31;

/// The number of outcomes counted per command.
pub const OUTCOMES: usize = 6;

/// The number of counters that are not per command.
pub const GENERAL: usize = 13;

/// The number of counters.
pub const SLOTS: usize = 199;

/// The position of a command among the commands.
pub open spec fn verb_index(verb: Verb) -> nat {
    match verb {
        Verb::Get => 0,
        Verb::Put => 1,
        Verb::Delete => 2,
        Verb::HashGet => 3,
        Verb::HashSet => 4,
        Verb::HashDelete => 5,
        Verb::HashExists => 6,
        Verb::HashIncrement => 7,
        Verb::HashMultiGet => 8,
        Verb::ListPushFront => 9,
        Verb::ListPushBack => 10,
        Verb::ListPopFront => 11,
        Verb::ListPopBack => 12,
        Verb::ListRange => 13,
        Verb::ListFetch => 14,
        Verb::ListLength => 15,
        Verb::ListRemove => 16,
        Verb::ListStore => 17,
        Verb::MultiGet => 18,
        Verb::SetAdd => 19,
        Verb::SetMembers => 20,
        Verb::SetRemove => 21,
        Verb::SortedSetAdd => 22,
        Verb::SortedSetMembers => 23,
        Verb::SortedSetIncrement => 24,
        Verb::SortedSetRank => 25,
        Verb::SortedSetRemove => 26,
        Verb::SortedSetScore => 27,
        Verb::Ping => 28,
        Verb::Publish => 29,
        Verb::Reconnect => 30,
    }
}

/// The position of an outcome among the outcomes.
pub open spec fn outcome_index(outcome: Outcome) -> nat {
    match outcome {
        Outcome::Success => 0,
        Outcome::Exception => 1,
        Outcome::Hit => 2,
        Outcome::Miss => 3,
        Outcome::Stored => 4,
        Outcome::Deleted => 5,
    }
}

/// The position of a counter in the flat set. No two names share one.
pub open spec fn slot(name: Counter) -> nat {
    match name {
        Counter::Connect => 0,
        Counter::ConnectEx => 1,
        Counter::ConnectTimeout => 2,
        Counter::Session => 3,
        Counter::SessionClosedClient => 4,
        Counter::SessionClosedServer => 5,
        Counter::Request => 6,
        Counter::RequestOk => 7,
        Counter::RequestReconnect => 8,
        Counter::RequestUnsupported => 9,
        Counter::ResponseOk => 10,
        Counter::ResponseEx => 11,
        Counter::ResponseTimeout => 12,
        Counter::Command(verb, outcome) => 13 + verb_index(verb) * 6 + outcome_index(outcome),
    }
}

/// Addition that stops at the largest value instead of wrapping.
pub open spec fn saturating_sum(a: u64, b: u64) -> u64 {
    if a + b > u64::MAX {
        u64::MAX
    } else {
        (a + b) as u64
    }
}

/// Distinct names have distinct positions, all within the set.
pub proof fn lemma_slot_injective(a: Counter, b: Counter)
    ensures
        slot(a) < SLOTS,
        slot(a) == slot(b) ==> a == b,
{
}

fn verb_position(verb: Verb) -> (out: usize)
    ensures
        out == verb_index(verb),
        out < VERBS,
{
    match verb {
        Verb::Get => 0,
        Verb::Put => 1,
        Verb::Delete => 2,
        Verb::HashGet => 3,
        Verb::HashSet => 4,
        Verb::HashDelete => 5,
        Verb::HashExists => 6,
        Verb::HashIncrement => 7,
        Verb::HashMultiGet => 8,
        Verb::ListPushFront => 9,
        Verb::ListPushBack => 10,
        Verb::ListPopFront => 11,
        Verb::ListPopBack => 12,
        Verb::ListRange => 13,
        Verb::ListFetch => 14,
        Verb::ListLength => 15,
        Verb::ListRemove => 16,
        Verb::ListStore => 17,
        Verb::MultiGet => 18,
        Verb::SetAdd => 19,
        Verb::SetMembers => 20,
        Verb::SetRemove => 21,
        Verb::SortedSetAdd => 22,
        Verb::SortedSetMembers => 23,
        Verb::SortedSetIncrement => 24,
        Verb::SortedSetRank => 25,
        Verb::SortedSetRemove => 26,
        Verb::SortedSetScore => 27,
        Verb::Ping => 28,
        Verb::Publish => 29,
        Verb::Reconnect => 30,
    }
}

fn outcome_position(outcome: Outcome) -> (out: usize)
    ensures
        out == outcome_index(outcome),
        out < OUTCOMES,
{
    match outcome {
        Outcome::Success => 0,
        Outcome::Exception => 1,
        Outcome::Hit => 2,
        Outcome::Miss => 3,
        Outcome::Stored => 4,
        Outcome::Deleted => 5,
    }
}

fn position(name: Counter) -> (out: usize)
    ensures
        out == slot(name),
        out < SLOTS,
{
    match name {
        Counter::Connect => 0,
        Counter::ConnectEx => 1,
        Counter::ConnectTimeout => 2,
        Counter::Session => 3,
        Counter::SessionClosedClient => 4,
        Counter::SessionClosedServer => 5,
        Counter::Request => 6,
        Counter::RequestOk => 7,
        Counter::RequestReconnect => 8,
        Counter::RequestUnsupported => 9,
        Counter::ResponseOk => 10,
        Counter::ResponseEx => 11,
        Counter::ResponseTimeout => 12,
        Counter::Command(verb, outcome) => GENERAL + verb_position(verb) * OUTCOMES
            + outcome_position(outcome),
    }
}

/// The counters of one driver, or the sum over drivers.
pub struct Counters {
    slots: Vec<u64>,
}

impl Counters {
    /// The invariant: one slot per name.
    pub closed spec fn wf(&self) -> bool {
        self.slots.len() == SLOTS
    }

    /// The value of a counter.
    pub closed spec fn value(&self, name: Counter) -> u64 {
        self.slots@[slot(name) as int]
    }

    /// True when `name` is `delta` higher in `self` than in `before`, or at
    /// the largest value, and every other counter is as in `before`.
    pub open spec fn adds(&self, before: Counters, name: Counter, delta: u64) -> bool {
        forall|other: Counter|
            #[trigger] self.value(other) == if other == name {
                saturating_sum(before.value(other), delta)
            } else {
                before.value(other)
            }
    }

    /// All counters at zero.
    pub fn new() -> (out: Self)
        ensures
            out.wf(),
            forall|name: Counter| #[trigger] out.value(name) == 0,
    {
        let mut slots: Vec<u64> = Vec::new();
        let mut i: usize = 0;
        while i < SLOTS
            invariant
                i <= SLOTS,
                slots.len() == i,
                forall|j: int| 0 <= j < i ==> slots@[j] == 0,
            decreases SLOTS - i,
        {
            slots.push(0);
            i = i + 1;
        }
        let out = Counters { slots };
        assert forall|name: Counter| #[trigger] out.value(name) == 0 by {
            lemma_slot_injective(name, name);
        }
        out
    }

    /// Reads a counter.
    pub fn get(&self, name: Counter) -> (out: u64)
        requires
            self.wf(),
        ensures
            out == self.value(name),
    {
        self.slots[position(name)]
    }

    /// Adds `delta` to a counter. A counter that would pass the largest
    /// value stays there.
    pub fn add(&mut self, name: Counter, delta: u64)
        requires
            old(self).wf(),
        ensures
            final(self).wf(),
            final(self).adds(*old(self), name, delta),
    {
        let i = position(name);
        let current = self.slots[i];
        let next = if delta > u64::MAX - current {
            u64::MAX
        } else {
            current + delta
        };
        self.slots.set(i, next);
        assert forall|other: Counter|
            #[trigger] self.value(other) == if other == name {
                saturating_sum(old(self).value(other), delta)
            } else {
                old(self).value(other)
            } by {
            lemma_slot_injective(other, name);
        }
    }

    /// Adds one to a counter.
    pub fn increment(&mut self, name: Counter)
        requires
            old(self).wf(),
        ensures
            final(self).wf(),
            final(self).adds(*old(self), name, 1),
    {
        self.add(name, 1);
    }
}

} // verus!
