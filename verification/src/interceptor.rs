//! The interceptor chain: ordered, fail-fast guards applied to every inbound
//! call before it reaches a handler.
//!
//! Each interceptor gates on a policy predicate injected at construction and,
//! when the policy admits the call, applies its metadata mutation. The first
//! rejection aborts the chain immediately: no later interceptor runs, and the
//! caller sees a not-found rejection.

use vstd::prelude::*;

use crate::metadata::{
    contains_key, lemma_seq_get_contains, lemma_seq_insert_idempotent, lemma_seq_insert_superset,
    seq_insert, CallContext, MetaEntries, MetaValue, MetaValueV,
};
use crate::status::{Status, StatusCode};

verus! {

/// The policy predicate an interceptor gates on, supplied at chain
/// construction rather than compiled in.
#[derive(Debug)]
pub enum Policy {
    /// Admit every call.
    Always,
    /// Reject every call.
    Never,
    /// Admit exactly the calls whose metadata carries this key.
    RequireKey(String),
}

/// Whether a policy admits a call with the given metadata.
pub open spec fn policy_holds(p: Policy, m: MetaEntries) -> bool {
    match p {
        Policy::Always => true,
        Policy::Never => false,
        Policy::RequireKey(k) => contains_key(m, k@),
    }
}

/// The mutation an interceptor applies when its policy admits the call.
#[derive(Debug)]
pub enum InterceptAction {
    /// Bind this key to this value, overwriting any previous binding.
    InsertMeta(String, MetaValue),
    /// Only observe the context — diagnostics — changing nothing.
    Observe,
}

/// What an action leaves of the metadata.
pub open spec fn action_applied(a: InterceptAction, m: MetaEntries) -> MetaEntries {
    match a {
        InterceptAction::InsertMeta(k, v) => seq_insert(m, k@, v@),
        InterceptAction::Observe => m,
    }
}

/// A pre-handler guard in the call pipeline: gates on its policy, mutates the
/// metadata when admitted, rejects the call otherwise.
#[derive(Debug)]
pub struct Interceptor {
    /// The injected policy predicate.
    pub policy: Policy,
    /// The mutation applied when the policy admits the call.
    pub action: InterceptAction,
    /// The message of the rejection raised when it does not.
    pub reject_message: String,
}

impl Clone for MetaValue {
    /// A copy indistinguishable from the original: same text or same bytes.
    fn clone(&self) -> (r: Self)
        ensures
            r@ == self@,
    {
        match self {
            MetaValue::Text(s) => MetaValue::Text(s.clone()),
            MetaValue::Bytes(b) => MetaValue::Bytes(clone_bytes(b)),
        }
    }
}

fn clone_bytes(b: &Vec<u8>) -> (r: Vec<u8>)
    ensures
        r@ == b@,
{
    let mut r: Vec<u8> = Vec::new();
    let n = b.len();
    let mut i: usize = 0;
    while i < n
        invariant
            n == b@.len(),
            i <= n,
            r@ == b@.take(i as int),
        decreases n - i,
    {
        r.push(b[i]);
        proof {
            assert(r@ =~= b@.take(i + 1));
        }
        i = i + 1;
    }
    proof {
        assert(b@.take(n as int) =~= b@);
    }
    r
}

/// Evaluates a policy against a call's metadata.
pub fn policy_eval(p: &Policy, ctx: &CallContext) -> (r: bool)
    ensures
        r == policy_holds(*p, ctx@),
{
    match p {
        Policy::Always => true,
        Policy::Never => false,
        Policy::RequireKey(k) => {
            proof {
                lemma_seq_get_contains(ctx@, k@);
            }
            match ctx.metadata.get(k) {
                Some(_) => true,
                None => false,
            }
        },
    }
}

/// Applies one interceptor: the mutated context when the policy admits the
/// call, the interceptor's not-found rejection when it does not.
pub fn apply_interceptor(interceptor: &Interceptor, ctx: CallContext) -> (r: Result<
    CallContext,
    Status,
>)
    ensures
        policy_holds(interceptor.policy, ctx@) ==> (r matches Ok(c) && c@ == action_applied(
            interceptor.action,
            ctx@,
        )),
        !policy_holds(interceptor.policy, ctx@) ==> (r matches Err(e) && e.code
            == StatusCode::NotFound && e.message@ == interceptor.reject_message@ && e.cause
            is None),
{
    if policy_eval(&interceptor.policy, &ctx) {
        let mut ctx = ctx;
        match &interceptor.action {
            InterceptAction::InsertMeta(k, v) => {
                ctx.metadata.insert(k.clone(), v.clone());
            },
            InterceptAction::Observe => {},
        }
        Ok(ctx)
    } else {
        Err(Status::not_found(interceptor.reject_message.clone()))
    }
}

/// The metadata after the whole chain, or the index of the first rejecting
/// interceptor; the chain is fail-fast, so nothing past that index runs.
pub open spec fn chain_result(chain: Seq<Interceptor>, m: MetaEntries) -> Result<MetaEntries, int>
    decreases chain.len(),
{
    if chain.len() == 0 {
        Ok(m)
    } else if !policy_holds(chain[0].policy, m) {
        Err(0)
    } else {
        match chain_result(chain.drop_first(), action_applied(chain[0].action, m)) {
            Ok(m2) => Ok(m2),
            Err(i) => Err(i + 1),
        }
    }
}

/// How many interceptors run: all of them, or up to and including the first
/// rejecting one.
pub open spec fn chain_executed(chain: Seq<Interceptor>, m: MetaEntries) -> int {
    match chain_result(chain, m) {
        Ok(_) => chain.len() as int,
        Err(i) => i + 1,
    }
}

/// The metadata after the first `i` interceptors' actions, were they all
/// admitted.
pub open spec fn chain_applied_prefix(chain: Seq<Interceptor>, m: MetaEntries, i: int) -> MetaEntries
    decreases i,
{
    if i <= 0 {
        m
    } else {
        action_applied(chain[i - 1].action, chain_applied_prefix(chain, m, i - 1))
    }
}

proof fn lemma_prefix_shift(chain: Seq<Interceptor>, m: MetaEntries, j: int)
    requires
        0 <= j < chain.len(),
        chain.len() >= 1,
    ensures
        chain_applied_prefix(chain, m, j + 1) == chain_applied_prefix(
            chain.drop_first(),
            action_applied(chain[0].action, m),
            j,
        ),
    decreases j,
{
    if j == 0 {
        assert(chain_applied_prefix(chain, m, 1) == action_applied(
            chain[0].action,
            chain_applied_prefix(chain, m, 0),
        ));
    } else {
        lemma_prefix_shift(chain, m, j - 1);
        assert(chain.drop_first()[j - 1] == chain[j]);
    }
}

/// An admitted action never removes a key.
proof fn lemma_action_superset(a: InterceptAction, m: MetaEntries)
    ensures
        forall|k: Seq<char>| contains_key(m, k) ==> contains_key(action_applied(a, m), k),
{
    match a {
        InterceptAction::InsertMeta(key, v) => {
            lemma_seq_insert_superset(m, key@, v@);
        },
        InterceptAction::Observe => {},
    }
}

/// For every chain and context: either the chain accepts and the final
/// metadata keys are a superset of the original keys — interceptors only add
/// or overwrite, never delete — or the first interceptor whose policy rejects
/// the cumulatively mutated context aborts the chain, with every interceptor
/// before it admitted and none after it executed.
pub proof fn lemma_chain_fail_fast(chain: Seq<Interceptor>, m: MetaEntries)
    ensures
        match chain_result(chain, m) {
            Ok(m2) => forall|k: Seq<char>| contains_key(m, k) ==> contains_key(m2, k),
            Err(i) => {
                &&& 0 <= i < chain.len()
                &&& !policy_holds(chain[i].policy, chain_applied_prefix(chain, m, i))
                &&& forall|j: int|
                    0 <= j < i ==> policy_holds(chain[j].policy, chain_applied_prefix(chain, m, j))
                &&& chain_executed(chain, m) == i + 1
            },
        },
    decreases chain.len(),
{
    if chain.len() == 0 {
    } else if !policy_holds(chain[0].policy, m) {
    } else {
        let m1 = action_applied(chain[0].action, m);
        let d = chain.drop_first();
        lemma_chain_fail_fast(d, m1);
        lemma_action_superset(chain[0].action, m);
        match chain_result(d, m1) {
            Ok(_) => {},
            Err(i) => {
                lemma_prefix_shift(chain, m, i);
                assert(!policy_holds(chain[i + 1].policy, chain_applied_prefix(chain, m, i + 1)));
                assert forall|j: int| 0 <= j < i + 1 implies policy_holds(
                    chain[j].policy,
                    chain_applied_prefix(chain, m, j),
                ) by {
                    if j > 0 {
                        lemma_prefix_shift(chain, m, j - 1);
                        assert(policy_holds(d[j - 1].policy, chain_applied_prefix(d, m1, j - 1)));
                    }
                }
            },
        }
    }
}

/// Applying the same metadata-mutating interceptor twice to the same initial
/// context yields the same final context as applying it once: inserts
/// overwrite, they never duplicate, and an admitted policy stays admitted.
pub proof fn lemma_interceptor_idempotent(i: Interceptor, m: MetaEntries)
    requires
        policy_holds(i.policy, m),
    ensures
        policy_holds(i.policy, action_applied(i.action, m)),
        action_applied(i.action, action_applied(i.action, m)) == action_applied(i.action, m),
{
    match i.action {
        InterceptAction::InsertMeta(k, v) => {
            lemma_seq_insert_idempotent(m, k@, v@);
            lemma_seq_insert_superset(m, k@, v@);
        },
        InterceptAction::Observe => {},
    }
}

/// What running a chain produced: the handler's context or the rejection,
/// and how many interceptors actually ran — the execution-count probe that
/// makes fail-fast behaviour observable.
#[derive(Debug)]
pub struct ChainOutcome {
    /// The cumulatively mutated context, or the first rejection.
    pub outcome: Result<CallContext, Status>,
    /// How many interceptors executed.
    pub executed: usize,
}

/// Applies each interceptor in list order to the call's context, aborting on
/// the first rejection without running anything after it.
pub fn apply_chain(chain: &Vec<Interceptor>, ctx: CallContext) -> (r: ChainOutcome)
    ensures
        match chain_result(chain@, ctx@) {
            Ok(m2) => r.outcome matches Ok(c) && c@ == m2 && r.executed == chain@.len(),
            Err(i) => r.outcome matches Err(e) && e.code == StatusCode::NotFound && e.message@
                == chain@[i].reject_message@ && e.cause is None && r.executed == i + 1,
        },
{
    let ghost ctx0 = ctx@;
    let n = chain.len();
    let mut cur = ctx;
    proof {
        assert(chain@.skip(0) =~= chain@);
    }
    let mut i: usize = 0;
    while i < n
        invariant
            n == chain@.len(),
            0 <= i <= n,
            ctx0 == ctx@,
            ({
                let tail = chain_result(chain@.skip(i as int), cur@);
                match chain_result(chain@, ctx0) {
                    Ok(m2) => tail is Ok && tail->Ok_0 == m2,
                    Err(j) => tail is Err && j == tail->Err_0 + i,
                }
            }),
        decreases n - i,
    {
        let ghost pre = cur@;
        proof {
            assert(chain@.skip(i as int)[0] == chain@[i as int]);
            assert(chain@.skip(i as int).drop_first() =~= chain@.skip(i as int + 1));
        }
        match apply_interceptor(&chain[i], cur) {
            Ok(c) => {
                cur = c;
            },
            Err(e) => {
                return ChainOutcome { outcome: Err(e), executed: i + 1 };
            },
        }
        i = i + 1;
    }
    proof {
        assert(chain@.skip(n as int) =~= Seq::<Interceptor>::empty());
    }
    ChainOutcome { outcome: Ok(cur), executed: n }
}

/// The first of the two stock interceptors: admits every call and stamps the
/// fixed binding `key1 = value1` into the metadata, overwriting any previous
/// value.
pub fn layer1(request: CallContext) -> (r: Result<CallContext, Status>)
    ensures
        r matches Ok(c) && c@ == seq_insert(request@, "key1"@, MetaValueV::Text("value1"@)),
{
    let mut request = request;
    request.metadata.insert(
        String::from_str("key1"),
        MetaValue::Text(String::from_str("value1")),
    );
    Ok(request)
}

/// The second of the two stock interceptors: admits every call, observes the
/// context for diagnostics only, and passes it through unchanged.
pub fn layer2(request: CallContext) -> (r: Result<CallContext, Status>)
    ensures
        r == Ok::<CallContext, Status>(request),
{
    Ok(request)
}

/// [`layer1`] as a chain element.
pub fn layer1_interceptor() -> (r: Interceptor)
    ensures
        r.policy == Policy::Always,
        r.action matches InterceptAction::InsertMeta(k, v) && k@ == "key1"@ && v@
            == MetaValueV::Text("value1"@),
{
    Interceptor {
        policy: Policy::Always,
        action: InterceptAction::InsertMeta(
            String::from_str("key1"),
            MetaValue::Text(String::from_str("value1")),
        ),
        reject_message: String::from_str("Random Error"),
    }
}

/// [`layer2`] as a chain element.
pub fn layer2_interceptor() -> (r: Interceptor)
    ensures
        r.policy == Policy::Always,
        r.action is Observe,
{
    Interceptor {
        policy: Policy::Always,
        action: InterceptAction::Observe,
        reject_message: String::from_str("Random Error"),
    }
}

} // verus!
