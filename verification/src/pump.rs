//! The server-streaming pump: drives a producer sequence into the bounded
//! outbound channel and stops promptly once the consumer disappears.
//!
//! The pump's life is the state machine Idle → Producing → (Draining on a
//! rejected send | Exhausted once a finite producer ends). A producer that
//! never ends is stopped only by the consumer dropping its end, which the
//! pump notices on its next send attempt — never later.

use vstd::prelude::*;

use crate::channel::{Envelope, OutboundChannel};
use crate::messages::EchoResponse;

verus! {

/// The pacing delay, in milliseconds, between items of an unbounded producer.
pub const STREAM_THROTTLE_MS: u64 = 200;

/// A lazy sequence of outbound messages, produced on demand.
#[derive(Debug)]
pub enum Producer {
    /// Repeats `message` exactly `remaining` more times, then ends.
    Finite {
        /// The message every produced item carries.
        message: String,
        /// How many items are still to be produced.
        remaining: usize,
    },
    /// Repeats `message` forever, pausing `delay_ms` between items; only the
    /// consumer's disappearance stops it.
    Throttled {
        /// The message every produced item carries.
        message: String,
        /// The cooperative pacing delay between items, in milliseconds.
        delay_ms: u64,
    },
}

impl Producer {
    /// The message each produced item carries.
    pub open spec fn message(&self) -> String {
        match self {
            Producer::Finite { message, .. } => *message,
            Producer::Throttled { message, .. } => *message,
        }
    }

    /// How many items are still to come; `None` for an unbounded producer.
    pub open spec fn count(&self) -> Option<nat> {
        match self {
            Producer::Finite { remaining, .. } => Some(*remaining as nat),
            Producer::Throttled { .. } => None,
        }
    }

    /// Pulls the next item: a finite producer counts down to `None`, an
    /// unbounded one always yields.
    pub fn next(&mut self) -> (r: Option<EchoResponse>)
        ensures
            final(self).message() == old(self).message(),
            match old(self).count() {
                None => r == Some((EchoResponse { message: old(self).message() }))
                    && *final(self) == *old(self),
                Some(n) => if n == 0 {
                    r is None && *final(self) == *old(self)
                } else {
                    r == Some((EchoResponse { message: old(self).message() }))
                        && final(self).count() == Some((n - 1) as nat)
                },
            },
    {
        match self {
            Producer::Finite { message, remaining } => {
                if *remaining > 0 {
                    *remaining = *remaining - 1;
                    Some(EchoResponse { message: message.clone() })
                } else {
                    None
                }
            },
            Producer::Throttled { message, .. } => {
                Some(EchoResponse { message: message.clone() })
            },
        }
    }
}

/// The pump's position in its life cycle.
#[derive(Clone, Copy, Debug, PartialEq, Eq, Structural)]
pub enum PumpState {
    /// No request has arrived yet.
    Idle,
    /// Pulling items and enqueueing them.
    Producing,
    /// The consumer is gone; terminal, no further work.
    Draining,
    /// A finite producer ended and the channel was closed; terminal.
    Exhausted,
}

/// What the pump observes between two decisions.
#[derive(Clone, Copy, Debug, PartialEq, Eq, Structural)]
pub enum PumpEvent {
    /// A request arrived and the producer is built.
    Started,
    /// The producer yielded an item.
    ItemReady,
    /// The producer ended.
    ProducerDone,
    /// The channel accepted the last enqueued item.
    SendAccepted,
    /// The channel rejected the send: the consumer is gone.
    SendRejected,
}

/// What the pump asks its driver to do next.
#[derive(Clone, Copy, Debug, PartialEq, Eq, Structural)]
pub enum PumpAction {
    /// Pull the next item from the producer.
    PullItem,
    /// Enqueue the item just produced.
    EnqueueItem,
    /// Drop the channel's sending end, signalling end-of-stream.
    CloseChannel,
    /// Do nothing further; the pump is done.
    Stop,
}

/// The pump's transition table: next state and requested action for a state
/// and an observed event. Terminal states absorb every event.
pub open spec fn pump_transition(s: PumpState, e: PumpEvent) -> (PumpState, PumpAction) {
    match (s, e) {
        (PumpState::Idle, PumpEvent::Started) => (PumpState::Producing, PumpAction::PullItem),
        (PumpState::Producing, PumpEvent::ItemReady) => (
            PumpState::Producing,
            PumpAction::EnqueueItem,
        ),
        (PumpState::Producing, PumpEvent::SendAccepted) => (
            PumpState::Producing,
            PumpAction::PullItem,
        ),
        (PumpState::Producing, PumpEvent::SendRejected) => (PumpState::Draining, PumpAction::Stop),
        (PumpState::Producing, PumpEvent::ProducerDone) => (
            PumpState::Exhausted,
            PumpAction::CloseChannel,
        ),
        _ => (s, PumpAction::Stop),
    }
}

/// One decision of the pump, for a driver that performs the asynchronous
/// work itself: it feeds back what it observed and performs what is asked.
pub fn pump_step(state: PumpState, event: PumpEvent) -> (r: (PumpState, PumpAction))
    ensures
        r == pump_transition(state, event),
{
    match (state, event) {
        (PumpState::Idle, PumpEvent::Started) => (PumpState::Producing, PumpAction::PullItem),
        (PumpState::Producing, PumpEvent::ItemReady) => (
            PumpState::Producing,
            PumpAction::EnqueueItem,
        ),
        (PumpState::Producing, PumpEvent::SendAccepted) => (
            PumpState::Producing,
            PumpAction::PullItem,
        ),
        (PumpState::Producing, PumpEvent::SendRejected) => (PumpState::Draining, PumpAction::Stop),
        (PumpState::Producing, PumpEvent::ProducerDone) => (
            PumpState::Exhausted,
            PumpAction::CloseChannel,
        ),
        _ => (state, PumpAction::Stop),
    }
}

/// Once the pump has reached a terminal state, every event leaves it there
/// and asks for no further work.
pub proof fn lemma_pump_terminal(s: PumpState, e: PumpEvent)
    requires
        s == PumpState::Draining || s == PumpState::Exhausted,
    ensures
        pump_transition(s, e).0 == s,
        pump_transition(s, e).1 == PumpAction::Stop,
{
}

/// How the pump ended, and how many send attempts failed on the way.
#[derive(Debug)]
pub struct PumpOutcome {
    /// The terminal state: `Exhausted` or `Draining`.
    pub end_state: PumpState,
    /// How many send attempts the channel rejected: at most one, since the
    /// first rejection stops the pump.
    pub failed_attempts: usize,
}

/// How many envelopes reach the consumer when a producer of `count` items
/// (`None` for unbounded) meets a consumer that accepts `budget` more
/// (`None` for one that never leaves).
pub open spec fn pump_deliveries(count: Option<nat>, budget: Option<nat>) -> nat {
    match (count, budget) {
        (Some(n), None) => n,
        (Some(n), Some(b)) => if n <= b { n } else { b },
        (None, Some(b)) => b,
        (None, None) => 0,
    }
}

/// Whether the consumer disappears before the producer ends, which leaves
/// the pump draining instead of exhausted.
pub open spec fn pump_drained(count: Option<nat>, budget: Option<nat>) -> bool {
    match (count, budget) {
        (Some(n), Some(b)) => n > b,
        (None, Some(_)) => true,
        _ => false,
    }
}

/// Runs the whole pump: pulls items until the producer ends or the consumer
/// disappears, then drops the channel's sending end.
///
/// Exactly `pump_deliveries` copies of the producer's message are enqueued,
/// in production order; a vanished consumer costs at most one failed send
/// attempt, and nothing is ever enqueued after it.
pub fn run_pump(producer: Producer, channel: &mut OutboundChannel) -> (r: PumpOutcome)
    requires
        !old(channel).closed,
        producer.count() is Some || old(channel).accept_limit is Some,
    ensures
        ({
            let d = pump_deliveries(producer.count(), old(channel).budget());
            let drained = pump_drained(producer.count(), old(channel).budget());
            &&& final(channel).sent@ == old(channel).sent@ + Seq::new(
                d,
                |i: int| Ok((EchoResponse { message: producer.message() })),
            )
            &&& r.failed_attempts == (if drained {
                1usize
            } else {
                0usize
            })
            &&& r.end_state == (if drained {
                PumpState::Draining
            } else {
                PumpState::Exhausted
            })
            &&& final(channel).closed
            &&& final(channel).capacity == old(channel).capacity
            &&& final(channel).accept_limit == old(channel).accept_limit
        }),
{
    let ghost sent0 = old(channel).sent@;
    let ghost msg = producer.message();
    let ghost n0 = producer.count();
    let ghost b0 = old(channel).budget();
    let ghost d = pump_deliveries(n0, b0);
    let ghost drained = pump_drained(n0, b0);
    let mut producer = producer;
    let mut end_state = PumpState::Producing;
    let mut failed: usize = 0;
    loop
        invariant_except_break
            !channel.closed,
            channel.capacity == old(channel).capacity,
            channel.accept_limit == old(channel).accept_limit,
            producer.message() == msg,
            channel.sent@.len() >= sent0.len(),
            channel.sent@ == sent0 + Seq::new(
                (channel.sent@.len() - sent0.len()) as nat,
                |i: int| Ok((EchoResponse { message: msg })),
            ),
            match (n0, producer.count()) {
                (Some(a), Some(c)) => a == c + channel.sent@.len() - sent0.len(),
                (None, None) => true,
                _ => false,
            },
            match (b0, channel.budget()) {
                (Some(b), Some(c)) => channel.sent@.len() - sent0.len() <= b && c == b - (
                channel.sent@.len() - sent0.len()),
                (None, None) => true,
                _ => false,
            },
            failed == 0,
            n0 is Some || b0 is Some,
            d == pump_deliveries(n0, b0),
            drained == pump_drained(n0, b0),
        ensures
            !channel.closed,
            channel.capacity == old(channel).capacity,
            channel.accept_limit == old(channel).accept_limit,
            channel.sent@ == sent0 + Seq::new(d, |i: int| Ok((EchoResponse { message: msg }))),
            failed == (if drained {
                1usize
            } else {
                0usize
            }),
            end_state == (if drained {
                PumpState::Draining
            } else {
                PumpState::Exhausted
            }),
        decreases
            (match producer.count() {
                Some(n) => n,
                None => 0nat,
            }),
            (match channel.budget() {
                Some(b) => b,
                None => 0nat,
            }),
    {
        let ghost delta = channel.sent@.len() - sent0.len();
        match producer.next() {
            None => {
                proof {
                    assert(n0 == Some(delta as nat));
                    assert(!drained);
                    assert(d == delta);
                }
                end_state = PumpState::Exhausted;
                break ;
            },
            Some(item) => {
                if channel.send(Ok(item)) {
                    proof {
                        assert(channel.sent@ =~= sent0 + Seq::new(
                            (delta + 1) as nat,
                            |i: int| Ok((EchoResponse { message: msg })),
                        ));
                    }
                } else {
                    proof {
                        assert(b0 matches Some(b) && delta == b);
                        assert(match n0 {
                            Some(n) => n > delta,
                            None => true,
                        });
                        assert(drained);
                        assert(d == delta);
                    }
                    failed = 1;
                    end_state = PumpState::Draining;
                    break ;
                }
            },
        }
    }
    channel.close();
    PumpOutcome { end_state, failed_attempts: failed }
}

} // verus!
