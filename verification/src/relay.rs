//! The bidirectional relay: echoes an inbound message stream to the bounded
//! outbound channel, classifying inbound errors on the way.
//!
//! A well-formed message is relayed verbatim. An inbound error whose cause
//! chain signals an abrupt disconnect (a broken pipe) ends the relay silently;
//! any other error is forwarded as exactly one failed item and then ends the
//! relay. A rejected send — the consumer is gone — ends the relay at once.

use vstd::prelude::*;

use crate::channel::{Envelope, OutboundChannel};
use crate::messages::{EchoRequest, EchoResponse};
use crate::status::{is_abrupt_disconnect, match_for_io_error, IoErrorKind, Status};

verus! {

/// What the relay does with one inbound item.
#[derive(Debug)]
pub enum RelayDecision {
    /// Enqueue the echoed message and keep relaying.
    Forward(EchoResponse),
    /// Enqueue the error as a failed item, then stop.
    ForwardError(Status),
    /// An abrupt disconnect: stop without emitting anything.
    StopSilently,
}

/// The decision the relay takes on one inbound item.
pub open spec fn decision_of(item: Result<EchoRequest, Status>) -> RelayDecision {
    match item {
        Ok(v) => RelayDecision::Forward((EchoResponse { message: v.message })),
        Err(e) => if is_abrupt_disconnect(e) {
            RelayDecision::StopSilently
        } else {
            RelayDecision::ForwardError(e)
        },
    }
}

/// The envelope an inbound item turns into: the echo of its message, or the
/// error itself.
pub open spec fn echo_of(item: Result<EchoRequest, Status>) -> Envelope {
    match item {
        Ok(v) => Ok((EchoResponse { message: v.message })),
        Err(e) => Err(e),
    }
}

/// Classifies one inbound item, walking an error's cause chain to tell an
/// abrupt disconnect from an error worth relaying.
pub fn relay_decision(item: Result<EchoRequest, Status>) -> (r: RelayDecision)
    ensures
        r == decision_of(item),
{
    match item {
        Ok(v) => RelayDecision::Forward(EchoResponse { message: v.message }),
        Err(err) => {
            match match_for_io_error(&err) {
                Some(kind) => {
                    if kind == IoErrorKind::BrokenPipe {
                        RelayDecision::StopSilently
                    } else {
                        RelayDecision::ForwardError(err)
                    }
                },
                None => RelayDecision::ForwardError(err),
            }
        },
    }
}

/// The envelopes the relay would deliver to a consumer that never leaves:
/// every message up to the first error, echoed in order; then, for a
/// non-abrupt error, that error as one failed item; nothing further.
pub open spec fn relay_expected(inbound: Seq<Result<EchoRequest, Status>>) -> Seq<Envelope>
    decreases inbound.len(),
{
    if inbound.len() == 0 {
        Seq::empty()
    } else {
        match inbound[0] {
            Ok(v) => seq![Ok((EchoResponse { message: v.message }))] + relay_expected(
                inbound.drop_first(),
            ),
            Err(e) => if is_abrupt_disconnect(e) {
                Seq::empty()
            } else {
                seq![Err(e)]
            },
        }
    }
}

/// How many inbound items the relay consumes when the consumer never leaves:
/// everything up to and including the first error, or the whole stream.
pub open spec fn relay_consumed(inbound: Seq<Result<EchoRequest, Status>>) -> nat
    decreases inbound.len(),
{
    if inbound.len() == 0 {
        0
    } else {
        match inbound[0] {
            Ok(_) => 1 + relay_consumed(inbound.drop_first()),
            Err(_) => 1,
        }
    }
}

/// Why the relay stopped.
#[derive(Clone, Copy, Debug, PartialEq, Eq, Structural)]
pub enum RelayEnd {
    /// The inbound stream ended gracefully.
    InboundExhausted,
    /// An abrupt disconnect was classified; nothing was emitted for it.
    AbruptDisconnect,
    /// A non-abrupt inbound error was forwarded as one failed item.
    ErrorForwarded,
    /// A send was rejected: the consumer dropped the outbound stream.
    ConsumerGone,
}

/// How many envelopes actually reach a consumer that accepts `budget` more.
pub open spec fn relay_cut(
    inbound: Seq<Result<EchoRequest, Status>>,
    budget: Option<nat>,
) -> nat {
    let e = relay_expected(inbound).len();
    match budget {
        Some(b) => if e > b {
            b
        } else {
            e
        },
        None => e,
    }
}

/// Whether the relay's last send attempt is rejected: exactly when the
/// consumer accepts fewer envelopes than the inbound stream calls for.
pub open spec fn relay_rejected(
    inbound: Seq<Result<EchoRequest, Status>>,
    budget: Option<nat>,
) -> bool {
    match budget {
        Some(b) => relay_expected(inbound).len() > b,
        None => false,
    }
}

/// Why the relay stops, for a consumer that accepts `budget` more envelopes.
pub open spec fn relay_end_expected(
    inbound: Seq<Result<EchoRequest, Status>>,
    budget: Option<nat>,
) -> RelayEnd {
    if relay_rejected(inbound, budget) {
        RelayEnd::ConsumerGone
    } else {
        let c = relay_consumed(inbound);
        if c > 0 && inbound[c - 1] is Err {
            if is_abrupt_disconnect(inbound[c - 1]->Err_0) {
                RelayEnd::AbruptDisconnect
            } else {
                RelayEnd::ErrorForwarded
            }
        } else {
            RelayEnd::InboundExhausted
        }
    }
}

/// How many inbound items the relay consumes before stopping, for a consumer
/// that accepts `budget` more envelopes.
pub open spec fn relay_processed(
    inbound: Seq<Result<EchoRequest, Status>>,
    budget: Option<nat>,
) -> nat {
    match budget {
        Some(b) => if relay_expected(inbound).len() > b {
            b + 1
        } else {
            relay_consumed(inbound)
        },
        None => relay_consumed(inbound),
    }
}

/// When the first `i` inbound items are well-formed messages, the expected
/// outbound sequence is their echoes followed by whatever the rest calls for.
pub proof fn lemma_relay_expected_split(s: Seq<Result<EchoRequest, Status>>, i: int)
    requires
        0 <= i <= s.len(),
        forall|j: int| 0 <= j < i ==> s[j] is Ok,
    ensures
        relay_expected(s) == Seq::new(i as nat, |j: int| echo_of(s[j])) + relay_expected(s.skip(i)),
    decreases i,
{
    if i == 0 {
        assert(s.skip(0) =~= s);
        assert(relay_expected(s) =~= Seq::new(0, |j: int| echo_of(s[j])) + relay_expected(s.skip(0)));
    } else {
        let d = s.drop_first();
        lemma_relay_expected_split(d, i - 1);
        assert(d.skip(i - 1) =~= s.skip(i));
        assert(relay_expected(s) =~= Seq::new(i as nat, |j: int| echo_of(s[j])) + relay_expected(
            s.skip(i),
        ));
    }
}

/// When the first `i` inbound items are well-formed messages, the relay
/// consumes them and then whatever the rest calls for.
pub proof fn lemma_relay_consumed_split(s: Seq<Result<EchoRequest, Status>>, i: int)
    requires
        0 <= i <= s.len(),
        forall|j: int| 0 <= j < i ==> s[j] is Ok,
    ensures
        relay_consumed(s) == i + relay_consumed(s.skip(i)),
    decreases i,
{
    if i == 0 {
        assert(s.skip(0) =~= s);
    } else {
        let d = s.drop_first();
        lemma_relay_consumed_split(d, i - 1);
        assert(d.skip(i - 1) =~= s.skip(i));
    }
}

/// For an inbound stream of well-formed messages only, the outbound sequence
/// is exactly their echoes, in order, and the whole stream is consumed.
pub proof fn lemma_relay_all_ok(s: Seq<Result<EchoRequest, Status>>)
    requires
        forall|j: int| 0 <= j < s.len() ==> s[j] is Ok,
    ensures
        relay_expected(s) == Seq::new(s.len(), |j: int| echo_of(s[j])),
        relay_consumed(s) == s.len(),
{
    lemma_relay_expected_split(s, s.len() as int);
    lemma_relay_consumed_split(s, s.len() as int);
    assert(relay_expected(s) =~= Seq::new(s.len(), |j: int| echo_of(s[j])));
}

/// An abrupt disconnect after `k` well-formed messages: the outbound sequence
/// is exactly the first `k` echoes, nothing of the error is emitted, and
/// nothing after it is consumed even if more items were queued inbound.
pub proof fn lemma_relay_abrupt_at(s: Seq<Result<EchoRequest, Status>>, k: int)
    requires
        0 <= k < s.len(),
        forall|j: int| 0 <= j < k ==> s[j] is Ok,
        s[k] is Err,
        is_abrupt_disconnect(s[k]->Err_0),
    ensures
        relay_expected(s) == Seq::new(k as nat, |j: int| echo_of(s[j])),
        relay_consumed(s) == k + 1,
{
    lemma_relay_expected_split(s, k);
    lemma_relay_consumed_split(s, k);
    assert(s.skip(k)[0] == s[k]);
    assert(relay_expected(s.skip(k)) =~= Seq::<Envelope>::empty());
    assert(relay_expected(s) =~= Seq::new(k as nat, |j: int| echo_of(s[j])));
}

/// A non-abrupt error after `k` well-formed messages: the outbound sequence
/// is the first `k` echoes followed by exactly that one failed item, and
/// nothing after it is consumed.
pub proof fn lemma_relay_error_at(s: Seq<Result<EchoRequest, Status>>, k: int)
    requires
        0 <= k < s.len(),
        forall|j: int| 0 <= j < k ==> s[j] is Ok,
        s[k] is Err,
        !is_abrupt_disconnect(s[k]->Err_0),
    ensures
        relay_expected(s) == Seq::new(k as nat, |j: int| echo_of(s[j])).push(Err(s[k]->Err_0)),
        relay_consumed(s) == k + 1,
{
    lemma_relay_expected_split(s, k);
    lemma_relay_consumed_split(s, k);
    assert(s.skip(k)[0] == s[k]);
    assert(relay_expected(s.skip(k)) =~= seq![Err(s[k]->Err_0)]);
    assert(relay_expected(s) =~= Seq::new(k as nat, |j: int| echo_of(s[j])).push(Err(s[k]->Err_0)));
}

/// How a relay run ended.
#[derive(Debug)]
pub struct RelayOutcome {
    /// Why the relay stopped.
    pub end: RelayEnd,
    /// How many inbound items were consumed.
    pub processed: usize,
    /// How many send attempts the channel rejected: at most one, since the
    /// first rejection stops the relay.
    pub failed_attempts: usize,
}

/// Runs the whole relay over an inbound stream, enqueueing into the channel
/// until the stream ends, an error stops it, or the consumer disappears;
/// then drops the channel's sending end.
pub fn run_relay(inbound: Vec<Result<EchoRequest, Status>>, channel: &mut OutboundChannel) -> (r:
    RelayOutcome)
    requires
        !old(channel).closed,
    ensures
        ({
            let b = old(channel).budget();
            &&& final(channel).sent@ == old(channel).sent@ + relay_expected(inbound@).take(
                relay_cut(inbound@, b) as int,
            )
            &&& r.failed_attempts == (if relay_rejected(inbound@, b) {
                1usize
            } else {
                0usize
            })
            &&& r.end == relay_end_expected(inbound@, b)
            &&& r.processed == relay_processed(inbound@, b)
            &&& final(channel).closed
            &&& final(channel).capacity == old(channel).capacity
            &&& final(channel).accept_limit == old(channel).accept_limit
        }),
{
    let ghost in0 = inbound@;
    let ghost sent0 = old(channel).sent@;
    let ghost b0 = old(channel).budget();
    let ghost exp = relay_expected(in0);
    let mut rest = inbound;
    let total = rest.len();
    proof {
        assert(in0.len() == total);
    }
    let mut processed: usize = 0;
    let mut failed: usize = 0;
    let mut end = RelayEnd::InboundExhausted;
    loop
        invariant_except_break
            !channel.closed,
            channel.capacity == old(channel).capacity,
            channel.accept_limit == old(channel).accept_limit,
            processed <= in0.len() <= usize::MAX,
            rest@ == in0.skip(processed as int),
            forall|j: int| 0 <= j < processed ==> in0[j] is Ok,
            channel.sent@ == sent0 + Seq::new(processed as nat, |j: int| echo_of(in0[j])),
            channel.sent@.len() == sent0.len() + processed,
            match (b0, channel.budget()) {
                (Some(b), Some(c)) => processed <= b && c == b - processed,
                (None, None) => true,
                _ => false,
            },
            failed == 0,
            exp == relay_expected(in0),
        ensures
            !channel.closed,
            channel.capacity == old(channel).capacity,
            channel.accept_limit == old(channel).accept_limit,
            channel.sent@ == sent0 + exp.take(relay_cut(in0, b0) as int),
            failed == (if relay_rejected(in0, b0) {
                1usize
            } else {
                0usize
            }),
            end == relay_end_expected(in0, b0),
            processed == relay_processed(in0, b0),
        decreases rest.len(),
    {
        let ghost p = processed as int;
        if rest.len() == 0 {
            proof {
                lemma_relay_all_ok(in0);
                assert(exp =~= exp.take(relay_cut(in0, b0) as int));
            }
            end = RelayEnd::InboundExhausted;
            break ;
        }
        let item = rest.remove(0);
        proof {
            assert(item == in0[p]);
            assert(rest@ =~= in0.skip(p + 1));
            lemma_relay_expected_split(in0, p);
        }
        match relay_decision(item) {
            RelayDecision::Forward(resp) => {
                if channel.send(Ok(resp)) {
                    processed = processed + 1;
                    proof {
                        assert(channel.sent@ =~= sent0 + Seq::new(
                            (p + 1) as nat,
                            |j: int| echo_of(in0[j]),
                        ));
                    }
                } else {
                    proof {
                        assert(in0.skip(p)[0] == in0[p]);
                        assert(relay_expected(in0.skip(p)).len() >= 1);
                        assert(b0 matches Some(b) && p == b && exp.len() > b);
                        assert(Seq::new(p as nat, |j: int| echo_of(in0[j])) =~= exp.take(p));
                    }
                    failed = 1;
                    end = RelayEnd::ConsumerGone;
                    processed = processed + 1;
                    break ;
                }
            },
            RelayDecision::ForwardError(e) => {
                proof {
                    assert(in0.skip(p)[0] == in0[p]);
                    assert(relay_expected(in0.skip(p)) =~= seq![Err(in0[p]->Err_0)]);
                    assert(exp =~= Seq::new(p as nat, |j: int| echo_of(in0[j])).push(
                        Err(in0[p]->Err_0),
                    ));
                    lemma_relay_consumed_split(in0, p);
                }
                if channel.send(Err(e)) {
                    proof {
                        assert(exp.len() == p + 1);
                        assert(channel.sent@ =~= sent0 + exp.take((p + 1) as int));
                    }
                    end = RelayEnd::ErrorForwarded;
                    processed = processed + 1;
                    break ;
                } else {
                    proof {
                        assert(b0 matches Some(b) && p == b && exp.len() > b);
                        assert(Seq::new(p as nat, |j: int| echo_of(in0[j])) =~= exp.take(p));
                    }
                    failed = 1;
                    end = RelayEnd::ConsumerGone;
                    processed = processed + 1;
                    break ;
                }
            },
            RelayDecision::StopSilently => {
                proof {
                    assert(in0.skip(p)[0] == in0[p]);
                    assert(relay_expected(in0.skip(p)) =~= Seq::<Envelope>::empty());
                    assert(exp =~= Seq::new(p as nat, |j: int| echo_of(in0[j])));
                    lemma_relay_consumed_split(in0, p);
                    assert(exp =~= exp.take(relay_cut(in0, b0) as int));
                }
                end = RelayEnd::AbruptDisconnect;
                processed = processed + 1;
                break ;
            },
        }
    }
    channel.close();
    RelayOutcome { end, processed, failed_attempts: failed }
}

} // verus!
