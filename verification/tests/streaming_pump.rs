//! The server-streaming pump: finite producers deliver everything and close
//! the channel; a vanished consumer stops the pump after one failed send.

use echo_pipeline::channel::{OutboundChannel, BIDI_STREAM_CAPACITY, SERVER_STREAM_CAPACITY};
use echo_pipeline::messages::EchoRequest;
use echo_pipeline::pump::{
    pump_step, run_pump, Producer, PumpAction, PumpEvent, PumpState, STREAM_THROTTLE_MS,
};
use echo_pipeline::server::EchoServer;

fn assert_all_echo(channel: &OutboundChannel, expected: &str, count: usize) {
    assert_eq!(channel.sent.len(), count);
    for envelope in channel.sent.iter() {
        match envelope {
            Ok(resp) => assert_eq!(resp.message, expected),
            Err(_) => panic!("the pump never enqueues errors"),
        }
    }
}

#[test]
fn finite_producer_of_zero_closes_empty() {
    let producer = Producer::Finite { message: "hello".to_string(), remaining: 0 };
    let mut channel = OutboundChannel::new(SERVER_STREAM_CAPACITY, None);
    let outcome = run_pump(producer, &mut channel);
    assert_all_echo(&channel, "hello", 0);
    assert!(channel.closed);
    assert_eq!(outcome.end_state, PumpState::Exhausted);
    assert_eq!(outcome.failed_attempts, 0);
}

#[test]
fn finite_producer_of_one_delivers_one() {
    let producer = Producer::Finite { message: "hello".to_string(), remaining: 1 };
    let mut channel = OutboundChannel::new(SERVER_STREAM_CAPACITY, None);
    let outcome = run_pump(producer, &mut channel);
    assert_all_echo(&channel, "hello", 1);
    assert!(channel.closed);
    assert_eq!(outcome.end_state, PumpState::Exhausted);
    assert_eq!(outcome.failed_attempts, 0);
}

#[test]
fn finite_producer_of_five_delivers_five_in_order() {
    let producer = Producer::Finite { message: "echo".to_string(), remaining: 5 };
    let mut channel = OutboundChannel::new(SERVER_STREAM_CAPACITY, None);
    let outcome = run_pump(producer, &mut channel);
    assert_all_echo(&channel, "echo", 5);
    assert!(channel.closed);
    assert_eq!(outcome.end_state, PumpState::Exhausted);
    assert_eq!(outcome.failed_attempts, 0);
}

#[test]
fn consumer_dropped_mid_production_stops_pump() {
    // the consumer takes two of five items and leaves
    let producer = Producer::Finite { message: "echo".to_string(), remaining: 5 };
    let mut channel = OutboundChannel::new(SERVER_STREAM_CAPACITY, Some(2));
    let outcome = run_pump(producer, &mut channel);
    assert_all_echo(&channel, "echo", 2);
    // exactly one further send attempt failed, then the pump stopped
    assert_eq!(outcome.failed_attempts, 1);
    assert_eq!(outcome.end_state, PumpState::Draining);
}

#[test]
fn consumer_leaving_exactly_at_the_end_looks_graceful() {
    let producer = Producer::Finite { message: "echo".to_string(), remaining: 3 };
    let mut channel = OutboundChannel::new(SERVER_STREAM_CAPACITY, Some(3));
    let outcome = run_pump(producer, &mut channel);
    assert_all_echo(&channel, "echo", 3);
    assert_eq!(outcome.failed_attempts, 0);
    assert_eq!(outcome.end_state, PumpState::Exhausted);
}

#[test]
fn unbounded_producer_stops_when_consumer_leaves() {
    // mirrors a client that takes five items of an infinite stream, then hangs up
    let server = EchoServer {};
    let producer = server.server_streaming_echo(EchoRequest { message: "hi".to_string() });
    match &producer {
        Producer::Throttled { message, delay_ms } => {
            assert_eq!(message, "hi");
            assert_eq!(*delay_ms, STREAM_THROTTLE_MS);
        },
        Producer::Finite { .. } => panic!("server streaming builds an unbounded producer"),
    }
    let mut channel = OutboundChannel::new(SERVER_STREAM_CAPACITY, Some(5));
    let outcome = run_pump(producer, &mut channel);
    assert_all_echo(&channel, "hi", 5);
    assert_eq!(outcome.failed_attempts, 1);
    assert_eq!(outcome.end_state, PumpState::Draining);
}

#[test]
fn channel_capacities_are_the_documented_ones() {
    assert_eq!(SERVER_STREAM_CAPACITY, 4);
    assert_eq!(BIDI_STREAM_CAPACITY, 128);
    assert_eq!(STREAM_THROTTLE_MS, 200);
    let channel = OutboundChannel::new(SERVER_STREAM_CAPACITY, None);
    assert_eq!(channel.capacity, 4);
    assert!(!channel.closed);
}

#[test]
fn pump_state_machine_follows_the_table() {
    assert_eq!(
        pump_step(PumpState::Idle, PumpEvent::Started),
        (PumpState::Producing, PumpAction::PullItem)
    );
    assert_eq!(
        pump_step(PumpState::Producing, PumpEvent::ItemReady),
        (PumpState::Producing, PumpAction::EnqueueItem)
    );
    assert_eq!(
        pump_step(PumpState::Producing, PumpEvent::SendAccepted),
        (PumpState::Producing, PumpAction::PullItem)
    );
    assert_eq!(
        pump_step(PumpState::Producing, PumpEvent::SendRejected),
        (PumpState::Draining, PumpAction::Stop)
    );
    assert_eq!(
        pump_step(PumpState::Producing, PumpEvent::ProducerDone),
        (PumpState::Exhausted, PumpAction::CloseChannel)
    );
    // terminal states absorb every event
    assert_eq!(
        pump_step(PumpState::Draining, PumpEvent::ItemReady),
        (PumpState::Draining, PumpAction::Stop)
    );
    assert_eq!(
        pump_step(PumpState::Exhausted, PumpEvent::Started),
        (PumpState::Exhausted, PumpAction::Stop)
    );
}
