//! The interceptor chain: ordered application, fail-fast rejection,
//! overwrite semantics and idempotence.

use echo_pipeline::interceptor::{
    apply_chain, apply_interceptor, layer1, layer1_interceptor, layer2, layer2_interceptor,
    InterceptAction, Interceptor, Policy,
};
use echo_pipeline::metadata::{CallContext, MetaValue};
use echo_pipeline::status::StatusCode;

fn text_of(v: &MetaValue) -> &str {
    match v {
        MetaValue::Text(s) => s.as_str(),
        MetaValue::Bytes(_) => panic!("expected a text value"),
    }
}

#[test]
fn layer1_inserts_key1() {
    let ctx = CallContext::new();
    let out = layer1(ctx).expect("layer1 admits every call");
    let got = out.metadata.get(&"key1".to_string()).expect("key1 must be present");
    assert_eq!(text_of(got), "value1");
    assert_eq!(out.metadata.len(), 1);
}

#[test]
fn layer1_overwrites_instead_of_duplicating() {
    let mut ctx = CallContext::new();
    ctx.metadata.insert("key1".to_string(), MetaValue::Text("stale".to_string()));
    let out = layer1(ctx).expect("layer1 admits every call");
    assert_eq!(out.metadata.len(), 1);
    let got = out.metadata.get(&"key1".to_string()).expect("key1 must be present");
    assert_eq!(text_of(got), "value1");
}

#[test]
fn layer1_twice_equals_layer1_once() {
    let once = layer1(CallContext::new()).expect("admitted");
    let twice = layer1(layer1(CallContext::new()).expect("admitted")).expect("admitted");
    assert_eq!(once.metadata.len(), twice.metadata.len());
    let a = once.metadata.get(&"key1".to_string()).expect("present");
    let b = twice.metadata.get(&"key1".to_string()).expect("present");
    assert_eq!(text_of(a), text_of(b));
}

#[test]
fn layer2_passes_context_through() {
    let mut ctx = CallContext::new();
    ctx.metadata.insert("key1".to_string(), MetaValue::Text("value1".to_string()));
    let out = layer2(ctx).expect("layer2 admits every call");
    assert_eq!(out.metadata.len(), 1);
    assert_eq!(text_of(out.metadata.get(&"key1".to_string()).expect("kept")), "value1");
}

#[test]
fn chain_applies_in_registration_order() {
    let chain = vec![layer1_interceptor(), layer2_interceptor()];
    let r = apply_chain(&chain, CallContext::new());
    assert_eq!(r.executed, 2);
    let ctx = r.outcome.expect("both layers admit");
    assert_eq!(text_of(ctx.metadata.get(&"key1".to_string()).expect("stamped")), "value1");
}

#[test]
fn chain_stops_at_first_rejection() {
    let reject = Interceptor {
        policy: Policy::Never,
        action: InterceptAction::Observe,
        reject_message: "Random Error".to_string(),
    };
    let chain = vec![layer1_interceptor(), reject, layer1_interceptor()];
    let r = apply_chain(&chain, CallContext::new());
    // the execution-count probe: nothing after the rejecting interceptor ran
    assert_eq!(r.executed, 2);
    let err = r.outcome.err().expect("second interceptor rejects");
    assert_eq!(err.code, StatusCode::NotFound);
    assert_eq!(err.message, "Random Error");
}

#[test]
fn chain_never_deletes_keys() {
    let mut ctx = CallContext::new();
    ctx.metadata.insert("caller".to_string(), MetaValue::Text("alpha".to_string()));
    let chain = vec![layer1_interceptor(), layer2_interceptor()];
    let out = apply_chain(&chain, ctx).outcome.expect("admitted");
    assert_eq!(text_of(out.metadata.get(&"caller".to_string()).expect("kept")), "alpha");
    assert_eq!(text_of(out.metadata.get(&"key1".to_string()).expect("added")), "value1");
    assert_eq!(out.metadata.len(), 2);
}

#[test]
fn require_key_policy_gates_on_metadata() {
    let guard = Interceptor {
        policy: Policy::RequireKey("key1".to_string()),
        action: InterceptAction::Observe,
        reject_message: "Random Error".to_string(),
    };
    let rejected = apply_interceptor(&guard, CallContext::new());
    let err = rejected.err().expect("no key1 yet");
    assert_eq!(err.code, StatusCode::NotFound);

    let stamped = layer1(CallContext::new()).expect("admitted");
    let admitted = apply_interceptor(&guard, stamped);
    assert!(admitted.is_ok());
}

#[test]
fn metadata_keeps_insertion_order_and_overwrites() {
    let mut ctx = CallContext::new();
    ctx.metadata.insert("a".to_string(), MetaValue::Text("1".to_string()));
    ctx.metadata.insert("b".to_string(), MetaValue::Bytes(vec![7u8, 8u8]));
    ctx.metadata.insert("a".to_string(), MetaValue::Text("2".to_string()));
    assert_eq!(ctx.metadata.len(), 2);
    assert_eq!(ctx.metadata.entries[0].0, "a");
    assert_eq!(text_of(&ctx.metadata.entries[0].1), "2");
    assert_eq!(ctx.metadata.entries[1].0, "b");
    match &ctx.metadata.entries[1].1 {
        MetaValue::Bytes(b) => assert_eq!(b.as_slice(), &[7u8, 8u8]),
        MetaValue::Text(_) => panic!("expected bytes"),
    }
}

#[test]
fn empty_chain_changes_nothing() {
    let chain: Vec<Interceptor> = Vec::new();
    let r = apply_chain(&chain, CallContext::new());
    assert_eq!(r.executed, 0);
    let ctx = r.outcome.expect("an empty chain admits");
    assert_eq!(ctx.metadata.len(), 0);
}
