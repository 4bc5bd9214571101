//! The bounded outbound channel decoupling response production from
//! transport delivery.
//!
//! The channel is modelled from the producer's side: `sent` is everything the
//! consumer will receive, in order, and `accept_limit` says after how many
//! deliveries the consumer drops its end. A send fails exactly when the
//! consumer is gone, and a failed send changes nothing — that failure is the
//! only cancellation signal a producer ever observes.

use vstd::prelude::*;

use crate::messages::EchoResponse;
use crate::status::Status;

verus! {

/// One element of the outbound stream: an echoed message or a failure.
pub type Envelope = Result<EchoResponse, Status>;

/// The outbound channel capacity used for server-streaming calls.
pub const SERVER_STREAM_CAPACITY: usize = 4;

/// The outbound channel capacity used for bidirectional calls.
pub const BIDI_STREAM_CAPACITY: usize = 128;

/// The bounded outbound channel, seen from its single producer.
#[derive(Debug)]
pub struct OutboundChannel {
    /// How many envelopes may sit in the queue at once. Sends block until
    /// space is available, so capacity never changes what is delivered, only
    /// when; it is kept here because the queue is deliberately small.
    pub capacity: usize,
    /// After how many accepted envelopes the consumer drops its end;
    /// `None` for a consumer that stays until the channel is closed.
    pub accept_limit: Option<usize>,
    /// Every envelope accepted so far, in send order.
    pub sent: Vec<Envelope>,
    /// Whether the producer has dropped its end, ending the stream.
    pub closed: bool,
}

impl OutboundChannel {
    /// Whether the consumer still holds its end: it does until it has
    /// accepted `accept_limit` envelopes.
    pub open spec fn consumer_alive(&self) -> bool {
        match self.accept_limit {
            None => true,
            Some(k) => self.sent@.len() < k,
        }
    }

    /// How many more envelopes the consumer will accept; `None` when it
    /// accepts any number.
    pub open spec fn budget(&self) -> Option<nat> {
        match self.accept_limit {
            None => None,
            Some(k) => if self.sent@.len() <= k {
                Some((k - self.sent@.len()) as nat)
            } else {
                Some(0nat)
            },
        }
    }

    /// A fresh channel with the given capacity and consumer behaviour.
    pub fn new(capacity: usize, accept_limit: Option<usize>) -> (c: OutboundChannel)
        requires
            capacity >= 1,
        ensures
            c.capacity == capacity,
            c.accept_limit == accept_limit,
            c.sent@ == Seq::<Envelope>::empty(),
            !c.closed,
    {
        OutboundChannel { capacity, accept_limit, sent: Vec::new(), closed: false }
    }

    /// Hands an envelope to the consumer. Succeeds and appends it exactly
    /// when the consumer still holds its end; otherwise fails and changes
    /// nothing, which tells the producer to stop.
    pub fn send(&mut self, envelope: Envelope) -> (ok: bool)
        requires
            !old(self).closed,
        ensures
            ok == old(self).consumer_alive(),
            ok ==> final(self).sent@ == old(self).sent@.push(envelope),
            !ok ==> final(self).sent@ == old(self).sent@,
            final(self).capacity == old(self).capacity,
            final(self).accept_limit == old(self).accept_limit,
            !final(self).closed,
    {
        let alive = match self.accept_limit {
            None => true,
            Some(k) => self.sent.len() < k,
        };
        if alive {
            self.sent.push(envelope);
            true
        } else {
            false
        }
    }

    /// Drops the producer's end, signalling end-of-stream to the consumer.
    pub fn close(&mut self)
        ensures
            final(self).closed,
            final(self).sent == old(self).sent,
            final(self).capacity == old(self).capacity,
            final(self).accept_limit == old(self).accept_limit,
    {
        self.closed = true;
    }
}

} // verus!
