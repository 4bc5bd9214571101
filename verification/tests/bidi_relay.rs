//! The bidirectional relay: verbatim echo, abrupt-disconnect classification,
//! error forwarding, and prompt termination when the consumer leaves.

use echo_pipeline::channel::{OutboundChannel, BIDI_STREAM_CAPACITY};
use echo_pipeline::messages::EchoRequest;
use echo_pipeline::relay::{relay_decision, RelayDecision, RelayEnd};
use echo_pipeline::server::EchoServer;
use echo_pipeline::status::{match_for_io_error, ErrorCause, IoErrorKind, Status, StatusCode};

fn msg(text: &str) -> Result<EchoRequest, Status> {
    Ok(EchoRequest { message: text.to_string() })
}

fn broken_pipe() -> Status {
    Status::unknown(
        "connection torn down".to_string(),
        Some(ErrorCause::Io(IoErrorKind::BrokenPipe)),
    )
}

fn plain_error() -> Status {
    Status::unknown("bad frame".to_string(), None)
}

#[test]
fn well_formed_messages_are_relayed_verbatim_in_order() {
    let inbound = vec![msg("a"), msg("b"), msg("c")];
    let mut channel = OutboundChannel::new(BIDI_STREAM_CAPACITY, None);
    let server = EchoServer {};
    let outcome = server.bidirectional_streaming_echo(inbound, &mut channel);
    assert_eq!(channel.sent.len(), 3);
    let expected = ["a", "b", "c"];
    for (i, envelope) in channel.sent.iter().enumerate() {
        match envelope {
            Ok(resp) => assert_eq!(resp.message, expected[i]),
            Err(_) => panic!("no error was inbound"),
        }
    }
    assert!(channel.closed);
    assert_eq!(outcome.end, RelayEnd::InboundExhausted);
    assert_eq!(outcome.processed, 3);
    assert_eq!(outcome.failed_attempts, 0);
}

#[test]
fn empty_inbound_stream_just_closes() {
    let inbound: Vec<Result<EchoRequest, Status>> = Vec::new();
    let mut channel = OutboundChannel::new(BIDI_STREAM_CAPACITY, None);
    let server = EchoServer {};
    let outcome = server.bidirectional_streaming_echo(inbound, &mut channel);
    assert_eq!(channel.sent.len(), 0);
    assert!(channel.closed);
    assert_eq!(outcome.end, RelayEnd::InboundExhausted);
    assert_eq!(outcome.processed, 0);
}

#[test]
fn abrupt_disconnect_ends_relay_silently() {
    let inbound = vec![msg("a"), msg("b"), Err(broken_pipe()), msg("never-processed")];
    let mut channel = OutboundChannel::new(BIDI_STREAM_CAPACITY, None);
    let server = EchoServer {};
    let outcome = server.bidirectional_streaming_echo(inbound, &mut channel);
    // nothing of the error is emitted, and nothing after it is processed
    assert_eq!(channel.sent.len(), 2);
    assert!(channel.sent.iter().all(|e| e.is_ok()));
    assert_eq!(outcome.end, RelayEnd::AbruptDisconnect);
    assert_eq!(outcome.processed, 3);
    assert_eq!(outcome.failed_attempts, 0);
}

#[test]
fn framework_wrapped_broken_pipe_is_still_abrupt() {
    let wrapped = Status::unknown(
        "stream error".to_string(),
        Some(ErrorCause::Other(Some(Box::new(ErrorCause::Framework(
            Some(IoErrorKind::BrokenPipe),
            None,
        ))))),
    );
    let inbound = vec![msg("a"), Err(wrapped)];
    let mut channel = OutboundChannel::new(BIDI_STREAM_CAPACITY, None);
    let server = EchoServer {};
    let outcome = server.bidirectional_streaming_echo(inbound, &mut channel);
    assert_eq!(channel.sent.len(), 1);
    assert_eq!(outcome.end, RelayEnd::AbruptDisconnect);
}

#[test]
fn non_abrupt_error_is_forwarded_once_then_relay_stops() {
    let inbound = vec![msg("a"), msg("b"), Err(plain_error()), msg("never-processed")];
    let mut channel = OutboundChannel::new(BIDI_STREAM_CAPACITY, None);
    let server = EchoServer {};
    let outcome = server.bidirectional_streaming_echo(inbound, &mut channel);
    assert_eq!(channel.sent.len(), 3);
    assert!(channel.sent[0].is_ok());
    assert!(channel.sent[1].is_ok());
    match &channel.sent[2] {
        Err(e) => {
            assert_eq!(e.code, StatusCode::Unknown);
            assert_eq!(e.message, "bad frame");
        },
        Ok(_) => panic!("the error must be the third and last envelope"),
    }
    assert_eq!(outcome.end, RelayEnd::ErrorForwarded);
    assert_eq!(outcome.processed, 3);
    assert_eq!(outcome.failed_attempts, 0);
}

#[test]
fn consumer_leaving_stops_relay_after_one_failed_send() {
    let inbound = vec![msg("a"), msg("b"), msg("c"), msg("d"), msg("e")];
    let mut channel = OutboundChannel::new(BIDI_STREAM_CAPACITY, Some(2));
    let server = EchoServer {};
    let outcome = server.bidirectional_streaming_echo(inbound, &mut channel);
    assert_eq!(channel.sent.len(), 2);
    assert_eq!(outcome.end, RelayEnd::ConsumerGone);
    assert_eq!(outcome.processed, 3);
    assert_eq!(outcome.failed_attempts, 1);
}

#[test]
fn relay_decision_classifies_each_item() {
    match relay_decision(msg("hi")) {
        RelayDecision::Forward(resp) => assert_eq!(resp.message, "hi"),
        _ => panic!("a well-formed message is forwarded"),
    }
    match relay_decision(Err(broken_pipe())) {
        RelayDecision::StopSilently => {},
        _ => panic!("a broken pipe ends the relay silently"),
    }
    match relay_decision(Err(plain_error())) {
        RelayDecision::ForwardError(e) => assert_eq!(e.message, "bad frame"),
        _ => panic!("any other error is forwarded"),
    }
    // a reset is an I/O error, but not the abrupt-disconnect signature
    let reset = Status::unknown(
        "reset".to_string(),
        Some(ErrorCause::Io(IoErrorKind::ConnectionReset)),
    );
    match relay_decision(Err(reset)) {
        RelayDecision::ForwardError(_) => {},
        _ => panic!("a reset is relayed, not swallowed"),
    }
}

#[test]
fn cause_chain_walk_finds_the_io_error() {
    let deep = Status::unknown(
        "outer".to_string(),
        Some(ErrorCause::Other(Some(Box::new(ErrorCause::Other(Some(Box::new(
            ErrorCause::Io(IoErrorKind::BrokenPipe),
        ))))))),
    );
    assert_eq!(match_for_io_error(&deep), Some(IoErrorKind::BrokenPipe));

    let none = Status::unknown(
        "outer".to_string(),
        Some(ErrorCause::Other(Some(Box::new(ErrorCause::Framework(None, None))))),
    );
    assert_eq!(match_for_io_error(&none), None);

    let causeless = Status::unknown("outer".to_string(), None);
    assert_eq!(match_for_io_error(&causeless), None);

    let reset = Status::unknown(
        "outer".to_string(),
        Some(ErrorCause::Io(IoErrorKind::ConnectionReset)),
    );
    assert_eq!(match_for_io_error(&reset), Some(IoErrorKind::ConnectionReset));
}
