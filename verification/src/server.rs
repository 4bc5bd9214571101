//! The echo service: the handlers behind the interceptor chain and the
//! middleware adapter.
//!
//! Unary and client-streaming echo are deliberately out of scope and rejected
//! synchronously. Server-streaming builds a paced, unbounded producer from
//! the request for the pump to drive; bidirectional streaming runs the relay.

use vstd::prelude::*;
use vstd::string::StringExecFns;

use crate::channel::OutboundChannel;
use crate::interceptor::{apply_chain, chain_result, Interceptor};
use crate::messages::{EchoRequest, EchoResponse};
use crate::metadata::CallContext;
use crate::middleware::{result_view, MyMiddleware, PipelineService};
use crate::pump::{Producer, STREAM_THROTTLE_MS};
use crate::relay::{
    relay_cut, relay_end_expected, relay_expected, relay_processed, relay_rejected, run_relay,
    RelayOutcome,
};
use crate::status::{Status, StatusCode};

verus! {

/// The echo service.
pub struct EchoServer {}

impl EchoServer {
    /// Unary echo is deliberately out of scope: every request is rejected
    /// synchronously as unimplemented, before any work happens.
    pub fn unary_echo(&self, _request: &EchoRequest) -> (r: Result<EchoResponse, Status>)
        ensures
            r matches Err(e) && e.code == StatusCode::Unimplemented && e.message@
                == "not implemented"@ && e.cause is None,
    {
        Err(Status::unimplemented(String::from_str("not implemented")))
    }

    /// Client-streaming echo is deliberately out of scope: rejected exactly
    /// as the unary call is, whatever the inbound sequence holds.
    pub fn client_streaming_echo(&self, _requests: &Vec<EchoRequest>) -> (r: Result<
        EchoResponse,
        Status,
    >)
        ensures
            r matches Err(e) && e.code == StatusCode::Unimplemented && e.message@
                == "not implemented"@ && e.cause is None,
    {
        Err(Status::unimplemented(String::from_str("not implemented")))
    }

    /// Answers a server-streaming call with its producer: the request's
    /// message repeated forever, paced by the fixed throttle. The driver
    /// hands the producer to the pump together with a fresh bounded channel;
    /// only the consumer's disappearance ends the stream.
    pub fn server_streaming_echo(&self, request: EchoRequest) -> (p: Producer)
        ensures
            p == (Producer::Throttled {
                message: request.message,
                delay_ms: STREAM_THROTTLE_MS,
            }),
    {
        Producer::Throttled { message: request.message, delay_ms: STREAM_THROTTLE_MS }
    }

    /// Runs the bidirectional relay: echoes the inbound messages to the
    /// channel in order, forwards the first non-abrupt error as one failed
    /// item, ends silently on an abrupt disconnect, and stops at once when
    /// the consumer is gone.
    pub fn bidirectional_streaming_echo(
        &self,
        inbound: Vec<Result<EchoRequest, Status>>,
        channel: &mut OutboundChannel,
    ) -> (r: RelayOutcome)
        requires
            !old(channel).closed,
        ensures
            ({
                let b = old(channel).budget();
                &&& final(channel).sent@ == old(channel).sent@ + relay_expected(inbound@).take(
                    relay_cut(inbound@, b) as int,
                )
                &&& r.failed_attempts == (if relay_rejected(inbound@, b) {
                    1usize
                } else {
                    0usize
                })
                &&& r.end == relay_end_expected(inbound@, b)
                &&& r.processed == relay_processed(inbound@, b)
                &&& final(channel).closed
                &&& final(channel).capacity == old(channel).capacity
                &&& final(channel).accept_limit == old(channel).accept_limit
            }),
    {
        run_relay(inbound, channel)
    }
}

/// One call through the whole pipeline: the interceptor chain runs first and
/// its rejection is terminal — no handler is invoked; an admitted call hands
/// the cumulatively mutated context and the request to the handler through
/// the middleware adapter, whose result passes through unchanged.
pub fn handle_call<S: PipelineService>(
    chain: &Vec<Interceptor>,
    adapter: &mut MyMiddleware<S>,
    ctx: CallContext,
    request: String,
) -> (r: Result<(CallContext, Result<String, String>), Status>)
    requires
        old(adapter).ready(),
    ensures
        *final(adapter) == *old(adapter),
        match chain_result(chain@, ctx@) {
            Ok(m2) => r matches Ok((c, reply)) && c@ == m2 && result_view(reply) == old(
                adapter,
            ).inner.response_view(request@),
            Err(i) => r matches Err(e) && e.code == StatusCode::NotFound && e.message@
                == chain@[i].reject_message@,
        },
{
    let outcome = apply_chain(chain, ctx);
    match outcome.outcome {
        Ok(admitted) => {
            let reply = adapter.call(request);
            Ok((admitted, reply))
        },
        Err(rejection) => Err(rejection),
    }
}

} // verus!
