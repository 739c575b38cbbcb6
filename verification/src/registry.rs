//! The route registry holds the single active backend target. A stored target
//! is always in normalized form: every embedded whitespace character has been
//! removed. The caller shares one registry between connection handlers behind
//! a lock.

use vstd::prelude::*;
use crate::strutil::{strip_ws, strip_ws_s, no_ws, lemma_strip_ws_no_ws, lemma_strip_ws_identity,
    lemma_strip_ws_idempotent};

verus! {

/// Holder of the current backend target. Exactly one target is active at a
/// time; it is read by every intercepted request and written rarely.
pub struct RouteRegistry {
    target: String,
}

impl RouteRegistry {
    /// The currently stored target.
    pub closed spec fn target_spec(&self) -> Seq<char> {
        self.target@
    }

    /// A registry is well formed when its target carries no whitespace: the
    /// stored value is always the normalized form of what was set.
    pub open spec fn wf(&self) -> bool {
        no_ws(self.target_spec())
    }

    /// A fresh registry pointing at the default local target.
    pub fn new() -> (r: Self)
        ensures
            r.target_spec() == "http://localhost:443"@,
            r.wf(),
    {
        let target = strip_ws("http://localhost:443");
        proof {
            reveal_strlit("http://localhost:443");
            assert(no_ws("http://localhost:443"@));
            lemma_strip_ws_identity("http://localhost:443"@);
        }
        RouteRegistry { target }
    }

    /// Normalize the given address by removing embedded whitespace, then
    /// replace the stored target with the normalized form.
    pub fn set_target(&mut self, addr: &str)
        ensures
            final(self).target_spec() == strip_ws_s(addr@),
            final(self).wf(),
    {
        let target = strip_ws(addr);
        proof {
            lemma_strip_ws_no_ws(addr@);
        }
        self.target = target;
    }

    /// The current target, as last stored by `set_target`.
    pub fn get_target(&self) -> (r: String)
        ensures
            r@ == self.target_spec(),
    {
        self.target.clone()
    }
}

/// Law: setting a target and then setting again what `get_target` returned
/// stores the same value — normalization is idempotent, so a round trip
/// through the registry never changes a stored target.
pub proof fn lemma_set_target_idempotent(addr: Seq<char>)
    ensures
        strip_ws_s(strip_ws_s(addr)) == strip_ws_s(addr),
{
    lemma_strip_ws_idempotent(addr);
}

/// The invariant every registry stored in the shared holder satisfies.
pub open spec fn route_pred() -> spec_fn(RouteRegistry) -> bool {
    |r: RouteRegistry| r.wf()
}

/// The registry behind a verified reader–writer lock: one holder shared by
/// every connection handler, readable concurrently, written rarely. Whatever
/// interleaving happens, every value a reader sees is a normalized target.
pub struct SharedRouteRegistry {
    lock: vstd::rwlock::RwLock<RouteRegistry, spec_fn(RouteRegistry) -> bool>,
}

impl SharedRouteRegistry {
    /// The lock holds registries satisfying the normalization invariant.
    pub closed spec fn wf(&self) -> bool {
        self.lock.pred() == route_pred()
    }

    /// A shared holder starting at the default target.
    pub fn new() -> (r: Self)
        ensures
            r.wf(),
    {
        let reg = RouteRegistry::new();
        SharedRouteRegistry { lock: vstd::rwlock::RwLock::new(reg, Ghost(route_pred())) }
    }

    /// Replace the stored target with the normalized form of `addr`. Atomic
    /// with respect to every other access; readers that come later see the
    /// new value, in-flight reads are unaffected.
    pub fn set_target(&self, addr: &str)
        requires
            self.wf(),
    {
        let (mut reg, handle) = self.lock.acquire_write();
        reg.set_target(addr);
        handle.release_write(reg);
    }

    /// The current target: always a normalized value, whatever writes came
    /// before or run elsewhere.
    pub fn get_target(&self) -> (r: String)
        requires
            self.wf(),
        ensures
            no_ws(r@),
    {
        let read = self.lock.acquire_read();
        let r = read.borrow().get_target();
        read.release_read();
        r
    }
}

} // verus!
