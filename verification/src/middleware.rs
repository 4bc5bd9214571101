//! The readiness-preserving middleware adapter: wraps an inner request
//! handler while exposing the handler's own readiness/invoke contract.
//!
//! The adapter checks readiness on the handler it holds, then invokes a
//! duplicate of it. That is only sound for handlers whose capacity is
//! stateless or safely shareable, so the duplicate is as ready as the
//! original; the [`PipelineService::duplicate`] contract pins exactly that
//! down, and a handler whose readiness reserves exclusive capacity cannot
//! implement it.

use vstd::prelude::*;
use vstd::string::StringExecFns;

verus! {

/// The value of a handler's textual response or error.
pub open spec fn result_view(r: Result<String, String>) -> Result<Seq<char>, Seq<char>> {
    match r {
        Ok(s) => Ok(s@),
        Err(e) => Err(e@),
    }
}

/// The readiness/invoke contract of a request handler: a claim of readiness
/// must be checked before each invoke, readiness checks are free of side
/// effects, and handling a request neither mutates the handler nor depends on
/// anything but the handler's state and the request.
pub trait PipelineService: Sized {
    /// Whether the handler reports itself ready.
    spec fn ready(&self) -> bool;

    /// The handler's response to a request, as a function of its state.
    spec fn response_view(&self, request: Seq<char>) -> Result<Seq<char>, Seq<char>>;

    /// Reports readiness, with no side effect on the handler.
    fn poll_ready(&mut self) -> (r: bool)
        ensures
            *final(self) == *old(self),
            r == old(self).ready(),
    ;

    /// Handles one request; may only run on a handler whose readiness was
    /// checked for this request.
    fn call(&mut self, request: String) -> (r: Result<String, String>)
        requires
            old(self).ready(),
        ensures
            *final(self) == *old(self),
            result_view(r) == old(self).response_view(request@),
    ;

    /// A duplicate indistinguishable from the original. This restricts
    /// implementors to stateless or safely shareable capacity, under which
    /// readiness just checked on the original carries over to the duplicate
    /// that is then invoked; a handler holding an exclusive in-flight slot
    /// cannot meet this and must not be wrapped.
    fn duplicate(&self) -> (r: Self)
        ensures
            r == *self,
    ;
}

/// A minimal handler: always ready, keeps no state, and answers every
/// request with the request text behind a fixed prefix.
pub struct MyTowerService {}

impl MyTowerService {
    /// A fresh handler; there is no state or configuration to set up.
    pub fn new() -> (s: MyTowerService)
        ensures
            s.ready(),
    {
        MyTowerService {}
    }
}

impl PipelineService for MyTowerService {
    open spec fn ready(&self) -> bool {
        true
    }

    open spec fn response_view(&self, request: Seq<char>) -> Result<Seq<char>, Seq<char>> {
        Ok("Received: "@ + request)
    }

    fn poll_ready(&mut self) -> (r: bool) {
        true
    }

    fn call(&mut self, request: String) -> (r: Result<String, String>) {
        let prefix = String::from_str("Received: ");
        Ok(prefix.concat(request.as_str()))
    }

    fn duplicate(&self) -> (r: Self) {
        MyTowerService {}
    }
}

/// Builds the middleware adapter around an inner handler.
pub struct MyMiddlewareLayer;

impl MyMiddlewareLayer {
    /// Wraps a handler in the adapter.
    pub fn layer<S: PipelineService>(&self, service: S) -> (r: MyMiddleware<S>)
        ensures
            r.inner == service,
    {
        MyMiddleware { inner: service }
    }
}

/// The middleware adapter: delegates readiness to the wrapped handler and
/// invokes a duplicate of it, passing the handler's result through unchanged.
pub struct MyMiddleware<S> {
    /// The wrapped handler.
    pub inner: S,
}

impl<S: PipelineService> PipelineService for MyMiddleware<S> {
    open spec fn ready(&self) -> bool {
        self.inner.ready()
    }

    open spec fn response_view(&self, request: Seq<char>) -> Result<Seq<char>, Seq<char>> {
        self.inner.response_view(request)
    }

    fn poll_ready(&mut self) -> (r: bool) {
        self.inner.poll_ready()
    }

    fn call(&mut self, request: String) -> (r: Result<String, String>) {
        let mut duplicate = self.inner.duplicate();
        duplicate.call(request)
    }

    fn duplicate(&self) -> (r: Self) {
        MyMiddleware { inner: self.inner.duplicate() }
    }
}

/// Readiness pass-through: the adapter reports exactly the wrapped handler's
/// readiness, and invoking it after a readiness check returns the handler's
/// own result for the request, unmodified in content.
pub proof fn lemma_middleware_passthrough<S: PipelineService>(m: MyMiddleware<S>, request: Seq<char>)
    ensures
        m.ready() == m.inner.ready(),
        m.response_view(request) == m.inner.response_view(request),
{
}

} // verus!
