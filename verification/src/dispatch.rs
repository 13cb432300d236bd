//! The dispatcher: resolves a request's target against the registry,
//! invokes the chosen adapter(s), and aggregates the outcomes.
//!
//! Routing follows the request's [`RouteSelector`]:
//! - an explicit name is looked up once, and an unregistered name yields
//!   exactly `AdapterError::NotFound` — never a timeout, never a panic;
//! - broadcast takes a snapshot of the registry at call time, invokes every
//!   adapter in it, and aggregates with [`aggregate_broadcast`]: partial
//!   success is not an overall failure, and only zero successes yield
//!   `AdapterError::Unavailable`;
//! - first-match walks the snapshot in registration order and stops at the
//!   first adapter that answers successfully; when all fail the aggregate
//!   failure is `AdapterError::Unavailable`.
//!
//! Broadcast results are reported in registration order whatever order the
//! underlying calls complete in, so output is reproducible. Both policies
//! decide through a verified function over the outcome values alone —
//! [`aggregate_broadcast`] for broadcast, [`select_first`] for first-match
//! — so the routing rule is checkable on the outcomes themselves. An
//! embedding program that runs the fan-out concurrently collects one
//! outcome per snapshot entry, in snapshot order, and hands the list to
//! the same functions; the decision it gets is the one `route` is verified
//! to produce.

use vstd::prelude::*;
use crate::adapter::ChatbotAdapter;
use crate::errors::{AdapterError, RegistryError};
use crate::registry::{Registry, has_name, adapter_of, name_index, unique_names};

verus! {

/// Default per-request deadline, in milliseconds, used by `get_response`.
pub const DEFAULT_DEADLINE_MS: u64 = 1000;

/// Default bound on simultaneous adapter calls across all requests. The
/// bound is configuration carried for the embedding program's executor;
/// within one verified `route` call the invocations are sequential.
pub const DEFAULT_FANOUT_LIMIT: usize = 64;

/// How a request names its backend(s).
#[derive(Debug, Clone)]
pub enum RouteSelector {
    /// Exactly the adapter registered under this name.
    Explicit(String),
    /// Every adapter in the registry snapshot.
    Broadcast,
    /// The first adapter, in registration order, that answers successfully.
    FirstMatch,
}

/// One unit of work handed to the dispatcher.
#[derive(Debug, Clone)]
pub struct Request {
    /// The text to hand to the selected adapter(s).
    pub input: String,
    /// Which adapter(s) should handle it.
    pub target: RouteSelector,
}

/// Aggregated outcome of a `route` call.
#[derive(Debug, PartialEq, Eq)]
pub enum DispatchResult {
    /// Single-target or first-match mode: the one response text.
    Single(String),
    /// Broadcast mode: the successful `(name, response)` pairs, then the
    /// failed `(name, error)` pairs, each list in registration order.
    Broadcast(Vec<(String, String)>, Vec<(String, AdapterError)>),
    /// No response: the routing error.
    Failed(AdapterError),
}

/// The successful `(name, response)` pairs of `s`, in order.
pub open spec fn successes_of(s: Seq<(String, Result<String, AdapterError>)>) -> Seq<(String, String)>
    decreases s.len(),
{
    if s.len() == 0 {
        Seq::empty()
    } else {
        let rest = successes_of(s.drop_last());
        match s.last().1 {
            Ok(t) => rest.push((s.last().0, t)),
            Err(_) => rest,
        }
    }
}

/// The failed `(name, error)` pairs of `s`, in order.
pub open spec fn failures_of(s: Seq<(String, Result<String, AdapterError>)>) -> Seq<(String, AdapterError)>
    decreases s.len(),
{
    if s.len() == 0 {
        Seq::empty()
    } else {
        let rest = failures_of(s.drop_last());
        match s.last().1 {
            Ok(_) => rest,
            Err(e) => rest.push((s.last().0, e)),
        }
    }
}

/// How many outcomes of `s` succeeded.
pub open spec fn count_ok(s: Seq<(String, Result<String, AdapterError>)>) -> nat
    decreases s.len(),
{
    if s.len() == 0 {
        0
    } else {
        count_ok(s.drop_last()) + if s.last().1 is Ok {
            1nat
        } else {
            0nat
        }
    }
}

/// What aggregating the broadcast outcomes `s` must yield: with no success
/// at all, exactly `Failed(Unavailable)`; otherwise the successes and the
/// failures of `s`, each in outcome order.
pub open spec fn aggregated(s: Seq<(String, Result<String, AdapterError>)>, r: DispatchResult) -> bool {
    if successes_of(s).len() == 0 {
        r == DispatchResult::Failed(AdapterError::Unavailable)
    } else {
        r matches DispatchResult::Broadcast(sv, fv)
            && (sv@ == successes_of(s) && fv@ == failures_of(s))
    }
}

/// Deterministic aggregation of broadcast outcomes, one per selected
/// adapter, in snapshot order: partial success is not an overall failure;
/// zero successes yield `Unavailable`.
pub fn aggregate_broadcast(outcomes: &Vec<(String, Result<String, AdapterError>)>) -> (r: DispatchResult)
    ensures
        aggregated(outcomes@, r),
{
    let mut succ: Vec<(String, String)> = Vec::new();
    let mut fail: Vec<(String, AdapterError)> = Vec::new();
    let n = outcomes.len();
    let mut i: usize = 0;
    while i < n
        invariant
            i <= n,
            n == outcomes@.len(),
            succ@ == successes_of(outcomes@.take(i as int)),
            fail@ == failures_of(outcomes@.take(i as int)),
        decreases n - i,
    {
        proof {
            assert(outcomes@.take(i + 1).drop_last() =~= outcomes@.take(i as int));
            assert(outcomes@.take(i + 1).last() == outcomes@[i as int]);
        }
        let p = &outcomes[i];
        match &p.1 {
            Ok(t) => {
                succ.push((p.0.clone(), t.clone()));
            },
            Err(e) => {
                fail.push((p.0.clone(), clone_adapter_error(e)));
            },
        }
        i = i + 1;
    }
    proof {
        assert(outcomes@.take(n as int) =~= outcomes@);
    }
    if succ.len() == 0 {
        DispatchResult::Failed(AdapterError::Unavailable)
    } else {
        DispatchResult::Broadcast(succ, fail)
    }
}

/// An exact copy of an adapter error.
pub fn clone_adapter_error(e: &AdapterError) -> (r: AdapterError)
    ensures
        r == *e,
{
    match e {
        AdapterError::NotFound(n) => AdapterError::NotFound(n.clone()),
        AdapterError::Timeout => AdapterError::Timeout,
        AdapterError::BackendFailure(d) => AdapterError::BackendFailure(d.clone()),
        AdapterError::Unavailable => AdapterError::Unavailable,
    }
}

/// The dispatch result a single-target route owes for the outcome of the
/// one adapter call: the response text on success, the adapter's own error
/// on failure.
pub fn single_result(outcome: Result<String, AdapterError>) -> (r: DispatchResult)
    ensures
        outcome matches Ok(t) ==> r == DispatchResult::Single(t),
        outcome matches Err(e) ==> r == DispatchResult::Failed(e),
{
    match outcome {
        Ok(t) => DispatchResult::Single(t),
        Err(e) => DispatchResult::Failed(e),
    }
}

/// The first successful outcome of `s`, in order: the name of the adapter
/// that produced it and its response text.
pub open spec fn first_ok(s: Seq<(String, Result<String, AdapterError>)>) -> Option<(String, String)>
    decreases s.len(),
{
    if s.len() == 0 {
        None
    } else {
        match s.first().1 {
            Ok(t) => Some((s.first().0, t)),
            Err(_) => first_ok(s.drop_first()),
        }
    }
}

/// What the first-match decision over the outcomes `s` must yield: the
/// response text of the first successful outcome when one exists, else
/// exactly `Failed(Unavailable)`.
pub open spec fn selected_first(s: Seq<(String, Result<String, AdapterError>)>, r: DispatchResult) -> bool {
    match first_ok(s) {
        Some(p) => r == DispatchResult::Single(p.1),
        None => r == DispatchResult::Failed(AdapterError::Unavailable),
    }
}

/// Deterministic first-match decision over outcomes, one per tried
/// adapter, in snapshot order — the mirror of [`aggregate_broadcast`] for
/// the first-match policy: the first success provides the response; with
/// no success at all, `Unavailable`.
pub fn select_first(outcomes: &Vec<(String, Result<String, AdapterError>)>) -> (r: DispatchResult)
    ensures
        selected_first(outcomes@, r),
{
    proof {
        assert(outcomes@.skip(0) =~= outcomes@);
    }
    let n = outcomes.len();
    let mut i: usize = 0;
    while i < n
        invariant
            i <= n,
            n == outcomes@.len(),
            first_ok(outcomes@) == first_ok(outcomes@.skip(i as int)),
        decreases n - i,
    {
        proof {
            let sk = outcomes@.skip(i as int);
            assert(sk.first() == outcomes@[i as int]);
            assert(sk.drop_first() =~= outcomes@.skip(i + 1));
        }
        match &outcomes[i].1 {
            Ok(t) => {
                return DispatchResult::Single(t.clone());
            },
            Err(_) => {},
        }
        i = i + 1;
    }
    proof {
        assert(outcomes@.skip(n as int) =~= Seq::<(String, Result<String, AdapterError>)>::empty());
    }
    DispatchResult::Failed(AdapterError::Unavailable)
}

/// When every outcome of `s` failed, `s` holds no first success.
proof fn lemma_first_ok_all_err(s: Seq<(String, Result<String, AdapterError>)>)
    requires
        forall|j: int| 0 <= j < s.len() ==> (#[trigger] s[j]).1 is Err,
    ensures
        first_ok(s) is None,
    decreases s.len(),
{
    if s.len() > 0 {
        let d = s.drop_first();
        assert forall|j: int| 0 <= j < d.len() implies (#[trigger] d[j]).1 is Err by {
            assert(d[j] == s[j + 1]);
        }
        lemma_first_ok_all_err(d);
    }
}

/// When every outcome of `s` but the last failed and the last succeeded
/// with `t`, the last outcome is the first success of `s`.
proof fn lemma_first_ok_trailing_ok(s: Seq<(String, Result<String, AdapterError>)>, t: String)
    requires
        s.len() > 0,
        forall|j: int| 0 <= j < s.len() - 1 ==> (#[trigger] s[j]).1 is Err,
        s.last().1 == Ok::<String, AdapterError>(t),
    ensures
        first_ok(s) == Some((s.last().0, t)),
    decreases s.len(),
{
    if s.len() == 1 {
        assert(s.first() == s.last());
    } else {
        assert(s[0].1 is Err);
        let d = s.drop_first();
        assert(d.last() == s.last());
        assert forall|j: int| 0 <= j < d.len() - 1 implies (#[trigger] d[j]).1 is Err by {
            assert(d[j] == s[j + 1]);
        }
        lemma_first_ok_trailing_ok(d, t);
    }
}

/// The gateway core: the adapter registry together with the routing and
/// aggregation engine, plus the configuration the embedding program hands
/// in at startup.
pub struct IntegratorCore<A> {
    registry: Registry<A>,
    default_deadline_ms: u64,
    fanout_limit: usize,
}

impl<A> View for IntegratorCore<A> {
    type V = Seq<(Seq<char>, A)>;

    closed spec fn view(&self) -> Seq<(Seq<char>, A)> {
        self.registry@
    }
}

impl<A> IntegratorCore<A> {
    /// The core's invariant: the registry's entry names are pairwise
    /// distinct.
    pub open spec fn wf(&self) -> bool {
        unique_names(self@)
    }

    /// The configured per-request deadline fallback, in milliseconds.
    pub closed spec fn default_deadline_spec(&self) -> u64 {
        self.default_deadline_ms
    }

    /// The configured bound on simultaneous adapter calls.
    pub closed spec fn fanout_limit_spec(&self) -> usize {
        self.fanout_limit
    }

    /// An empty core with the default configuration.
    pub fn new() -> (r: IntegratorCore<A>)
        ensures
            r@ == Seq::<(Seq<char>, A)>::empty(),
            r.wf(),
            r.default_deadline_spec() == DEFAULT_DEADLINE_MS,
            r.fanout_limit_spec() == DEFAULT_FANOUT_LIMIT,
    {
        IntegratorCore {
            registry: Registry::new(),
            default_deadline_ms: DEFAULT_DEADLINE_MS,
            fanout_limit: DEFAULT_FANOUT_LIMIT,
        }
    }

    /// An empty core with the configuration the bootstrap code supplies.
    pub fn with_config(default_deadline_ms: u64, fanout_limit: usize) -> (r: IntegratorCore<A>)
        ensures
            r@ == Seq::<(Seq<char>, A)>::empty(),
            r.wf(),
            r.default_deadline_spec() == default_deadline_ms,
            r.fanout_limit_spec() == fanout_limit,
    {
        IntegratorCore { registry: Registry::new(), default_deadline_ms, fanout_limit }
    }

    /// The configured per-request deadline fallback, in milliseconds.
    pub fn default_deadline_ms(&self) -> (r: u64)
        ensures
            r == self.default_deadline_spec(),
    {
        self.default_deadline_ms
    }

    /// The configured bound on simultaneous adapter calls, for the
    /// embedding program's executor.
    pub fn fanout_limit(&self) -> (r: usize)
        ensures
            r == self.fanout_limit_spec(),
    {
        self.fanout_limit
    }

    /// Register `adapter` under `name`; see [`Registry::add`].
    pub fn add_adapter(&mut self, name: String, adapter: A) -> (r: Result<(), RegistryError>)
        requires
            old(self).wf(),
        ensures
            final(self).wf(),
            final(self).default_deadline_spec() == old(self).default_deadline_spec(),
            final(self).fanout_limit_spec() == old(self).fanout_limit_spec(),
            has_name(old(self)@, name@) ==> r == Err::<(), RegistryError>(RegistryError::DuplicateName)
                && final(self)@ == old(self)@,
            !has_name(old(self)@, name@) ==> r == Ok::<(), RegistryError>(())
                && final(self)@ == old(self)@.push((name@, adapter)),
    {
        self.registry.add(name, adapter)
    }

    /// Remove the adapter registered under `name`; see [`Registry::remove`].
    pub fn remove_adapter(&mut self, name: &String) -> (r: Result<(), RegistryError>)
        requires
            old(self).wf(),
        ensures
            final(self).wf(),
            final(self).default_deadline_spec() == old(self).default_deadline_spec(),
            final(self).fanout_limit_spec() == old(self).fanout_limit_spec(),
            !has_name(old(self)@, name@) ==> r == Err::<(), RegistryError>(RegistryError::NotFound)
                && final(self)@ == old(self)@,
            has_name(old(self)@, name@) ==> r == Ok::<(), RegistryError>(())
                && final(self)@ == old(self)@.remove(name_index(old(self)@, name@)),
    {
        self.registry.remove(name)
    }

    /// Hot-swap the adapter registered under `name`; see
    /// [`Registry::replace`].
    pub fn replace_adapter(&mut self, name: &String, adapter: A) -> (r: Result<(), RegistryError>)
        requires
            old(self).wf(),
        ensures
            final(self).wf(),
            final(self).default_deadline_spec() == old(self).default_deadline_spec(),
            final(self).fanout_limit_spec() == old(self).fanout_limit_spec(),
            !has_name(old(self)@, name@) ==> r == Err::<(), RegistryError>(RegistryError::NotFound)
                && final(self)@ == old(self)@,
            has_name(old(self)@, name@) ==> r == Ok::<(), RegistryError>(())
                && final(self)@ == old(self)@.update(name_index(old(self)@, name@), (name@, adapter)),
    {
        self.registry.replace(name, adapter)
    }

    /// A shared handle on the adapter registered under `name`; see
    /// [`Registry::lookup`].
    pub fn lookup_adapter(&self, name: &String) -> (r: Option<&A>)
        requires
            self.wf(),
        ensures
            match r {
                Some(h) => has_name(self@, name@) && *h == adapter_of(self@, name@),
                None => !has_name(self@, name@),
            },
    {
        self.registry.lookup(name)
    }

    /// Snapshot of the registered names, in registration order; see
    /// [`Registry::list`].
    pub fn list_names(&self) -> (r: Vec<String>)
        ensures
            r@.len() == self@.len(),
            forall|i: int| 0 <= i < self@.len() ==> r@[i]@ == self@[i].0,
    {
        self.registry.list()
    }
}

impl<A: ChatbotAdapter> IntegratorCore<A> {
    /// Invoke every registered adapter on `input` and pair each outcome
    /// with its adapter's name, in registration order.
    fn call_all(&self, input: &str, deadline_ms: u64) -> (r: Vec<(String, Result<String, AdapterError>)>)
        ensures
            r@.len() == self@.len(),
            forall|i: int| 0 <= i < r@.len() ==> r@[i].0@ == self@[i].0,
    {
        let n = self.registry.len();
        let mut out: Vec<(String, Result<String, AdapterError>)> = Vec::new();
        let mut i: usize = 0;
        while i < n
            invariant
                i <= n,
                n == self@.len(),
                out@.len() == i,
                forall|j: int| 0 <= j < i ==> out@[j].0@ == self@[j].0,
            decreases n - i,
        {
            let name = self.registry.name_at(i).clone();
            let outcome = self.registry.adapter_at(i).respond(input, deadline_ms);
            out.push((name, outcome));
            i = i + 1;
        }
        out
    }

    /// Walk the registry in registration order, handing each adapter the
    /// per-adapter deadline, and stop at the first success; adapters after
    /// the winner are not invoked. The result is decided by
    /// [`select_first`] over the outcomes actually collected, so the
    /// returned text is the first succeeding adapter's response.
    fn first_match(&self, input: &str, deadline_ms: u64) -> (r: DispatchResult)
        ensures
            self@.len() == 0 ==> r == DispatchResult::Failed(AdapterError::Unavailable),
            r is Single || r == DispatchResult::Failed(AdapterError::Unavailable),
            exists|oc: Seq<(String, Result<String, AdapterError>)>|
                #[trigger] selected_first(oc, r)
                && oc.len() <= self@.len()
                && (forall|j: int| 0 <= j < oc.len() ==> oc[j].0@ == self@[j].0)
                && (forall|j: int| 0 <= j < oc.len() - 1 ==> oc[j].1 is Err)
                && (r == DispatchResult::Failed(AdapterError::Unavailable) ==> oc.len() == self@.len()),
    {
        let n = self.registry.len();
        let mut outcomes: Vec<(String, Result<String, AdapterError>)> = Vec::new();
        let mut i: usize = 0;
        while i < n
            invariant
                i <= n,
                n == self@.len(),
                outcomes@.len() == i,
                forall|j: int| 0 <= j < i ==> (#[trigger] outcomes@[j]).0@ == self@[j].0,
                forall|j: int| 0 <= j < i ==> (#[trigger] outcomes@[j]).1 is Err,
            decreases n - i,
        {
            let name = self.registry.name_at(i).clone();
            let outcome = self.registry.adapter_at(i).respond(input, deadline_ms);
            let succeeded = outcome.is_ok();
            let ghost got = outcome;
            outcomes.push((name, outcome));
            if succeeded {
                let r = select_first(&outcomes);
                proof {
                    assert(outcomes@.last().1 == got);
                    match got {
                        Ok(t) => lemma_first_ok_trailing_ok(outcomes@, t),
                        Err(_) => assert(false),
                    }
                }
                return r;
            }
            i = i + 1;
        }
        let r = select_first(&outcomes);
        proof {
            lemma_first_ok_all_err(outcomes@);
        }
        r
    }

    /// Route one request and aggregate the result.
    ///
    /// - Explicit target: one lookup; an unregistered name yields exactly
    ///   `Failed(NotFound(name))`, otherwise the one adapter's outcome is
    ///   propagated directly.
    /// - Broadcast: a snapshot of the registry at call time is invoked —
    ///   registrations made during the call are not included — and the
    ///   outcomes, one per snapshot entry in registration order, are
    ///   aggregated by the rule of [`aggregated`].
    /// - First match: the snapshot is walked in registration order and the
    ///   first adapter to answer successfully wins; the outcomes actually
    ///   collected decide the result by the rule of [`selected_first`], and
    ///   only after every adapter failed is the result `Failed(Unavailable)`.
    ///
    /// Adapter failures never unwind: every outcome is captured as an
    /// `AdapterError` value.
    pub fn route(&self, req: &Request, deadline_ms: u64) -> (r: DispatchResult)
        requires
            self.wf(),
        ensures
            match req.target {
                RouteSelector::Explicit(name) => {
                    &&& !has_name(self@, name@) ==> (r matches DispatchResult::Failed(e)
                        && e matches AdapterError::NotFound(m) && m@ == name@)
                    &&& has_name(self@, name@) ==> (r is Single || r is Failed)
                },
                RouteSelector::Broadcast => exists|oc: Seq<(String, Result<String, AdapterError>)>|
                    #[trigger] aggregated(oc, r)
                    && oc.len() == self@.len()
                    && (forall|i: int| 0 <= i < oc.len() ==> oc[i].0@ == self@[i].0),
                RouteSelector::FirstMatch => {
                    &&& self@.len() == 0 ==> r == DispatchResult::Failed(AdapterError::Unavailable)
                    &&& (r is Single || r == DispatchResult::Failed(AdapterError::Unavailable))
                    &&& exists|oc: Seq<(String, Result<String, AdapterError>)>|
                        #[trigger] selected_first(oc, r)
                        && oc.len() <= self@.len()
                        && (forall|j: int| 0 <= j < oc.len() ==> oc[j].0@ == self@[j].0)
                        && (forall|j: int| 0 <= j < oc.len() - 1 ==> oc[j].1 is Err)
                        && (r == DispatchResult::Failed(AdapterError::Unavailable) ==> oc.len() == self@.len())
                },
            },
    {
        match &req.target {
            RouteSelector::Explicit(name) => {
                match self.registry.lookup(name) {
                    None => DispatchResult::Failed(AdapterError::NotFound(name.clone())),
                    Some(adapter) => single_result(adapter.respond(req.input.as_str(), deadline_ms)),
                }
            },
            RouteSelector::Broadcast => {
                let outcomes = self.call_all(req.input.as_str(), deadline_ms);
                let r = aggregate_broadcast(&outcomes);
                proof {
                    assert(aggregated(outcomes@, r));
                }
                r
            },
            RouteSelector::FirstMatch => self.first_match(req.input.as_str(), deadline_ms),
        }
    }

    /// Answer `input` through the first-match policy under the configured
    /// default deadline: the first registered adapter to answer
    /// successfully provides the response; with no adapter registered, or
    /// none answering, the error is `Unavailable`.
    pub fn get_response(&self, input: String) -> (r: Result<String, AdapterError>)
        requires
            self.wf(),
        ensures
            self@.len() == 0 ==> r == Err::<String, AdapterError>(AdapterError::Unavailable),
            r matches Ok(_) || r == Err::<String, AdapterError>(AdapterError::Unavailable),
    {
        let req = Request { input, target: RouteSelector::FirstMatch };
        match self.route(&req, self.default_deadline_ms) {
            DispatchResult::Single(t) => Ok(t),
            DispatchResult::Failed(e) => Err(e),
            DispatchResult::Broadcast(_, _) => {
                proof {
                    assert(false);
                }
                Err(AdapterError::Unavailable)
            },
        }
    }
}

/// Law: broadcast aggregation loses nothing and invents nothing — of `N`
/// outcomes with `K` successes, exactly `K` pairs are reported as
/// successes and exactly `N - K` as failures.
pub proof fn lemma_broadcast_counts(s: Seq<(String, Result<String, AdapterError>)>)
    ensures
        successes_of(s).len() == count_ok(s),
        failures_of(s).len() == s.len() - count_ok(s),
        count_ok(s) <= s.len(),
    decreases s.len(),
{
    if s.len() > 0 {
        lemma_broadcast_counts(s.drop_last());
    }
}

/// Law: of `N` broadcast outcomes with `K` successes, the aggregate holds
/// exactly `K` successes and `N - K` failures, and is an overall failure —
/// exactly `Unavailable` — precisely when `K == 0`.
pub proof fn lemma_broadcast_partition(s: Seq<(String, Result<String, AdapterError>)>, r: DispatchResult)
    requires
        aggregated(s, r),
    ensures
        count_ok(s) == 0 ==> r == DispatchResult::Failed(AdapterError::Unavailable),
        count_ok(s) > 0 ==> (r matches DispatchResult::Broadcast(sv, fv)
            && sv@.len() == count_ok(s)
            && fv@.len() == s.len() - count_ok(s)),
{
    lemma_broadcast_counts(s);
}

/// Law: a failed call is recorded, not dropped — when outcome `i` failed
/// with `e`, the failure list of the aggregation contains `(name_i, e)`.
/// In particular an adapter that exceeded its deadline contributes its
/// `Timeout` entry to the broadcast result.
pub proof fn lemma_failure_recorded(s: Seq<(String, Result<String, AdapterError>)>, i: int, e: AdapterError)
    requires
        0 <= i < s.len(),
        s[i].1 == Err::<String, AdapterError>(e),
    ensures
        failures_of(s).contains((s[i].0, e)),
    decreases s.len(),
{
    if i == s.len() - 1 {
        assert(failures_of(s) == failures_of(s.drop_last()).push((s[i].0, e)));
        assert(failures_of(s).last() == (s[i].0, e));
    } else {
        lemma_failure_recorded(s.drop_last(), i, e);
        let fs = failures_of(s.drop_last());
        let k = choose|k: int| 0 <= k < fs.len() && fs[k] == (s.drop_last()[i].0, e);
        assert(s.drop_last()[i] == s[i]);
        assert(failures_of(s)[k] == (s[i].0, e));
    }
}

/// Law: a successful call is reported — when outcome `i` succeeded with
/// text `t`, the success list of the aggregation contains `(name_i, t)`.
pub proof fn lemma_success_recorded(s: Seq<(String, Result<String, AdapterError>)>, i: int, t: String)
    requires
        0 <= i < s.len(),
        s[i].1 == Ok::<String, AdapterError>(t),
    ensures
        successes_of(s).contains((s[i].0, t)),
    decreases s.len(),
{
    if i == s.len() - 1 {
        assert(successes_of(s) == successes_of(s.drop_last()).push((s[i].0, t)));
        assert(successes_of(s).last() == (s[i].0, t));
    } else {
        lemma_success_recorded(s.drop_last(), i, t);
        let ss = successes_of(s.drop_last());
        let k = choose|k: int| 0 <= k < ss.len() && ss[k] == (s.drop_last()[i].0, t);
        assert(s.drop_last()[i] == s[i]);
        assert(successes_of(s)[k] == (s[i].0, t));
    }
}

/// Law: a failed call is visible in the dispatch aggregate — when outcome
/// `i` failed with `e` and at least one outcome succeeded, the aggregate's
/// failure list contains `(name_i, e)`; in particular an adapter that
/// exceeded its deadline contributes its `Timeout` entry. With zero
/// successes the aggregate is the total-failure error `Unavailable` and
/// carries no list, by the zero-success rule of [`aggregated`].
pub proof fn lemma_failure_recorded_in_aggregate(
    s: Seq<(String, Result<String, AdapterError>)>,
    r: DispatchResult,
    i: int,
    e: AdapterError,
)
    requires
        aggregated(s, r),
        0 <= i < s.len(),
        s[i].1 == Err::<String, AdapterError>(e),
        count_ok(s) > 0,
    ensures
        r matches DispatchResult::Broadcast(sv, fv) && fv@.contains((s[i].0, e)),
{
    lemma_broadcast_counts(s);
    lemma_failure_recorded(s, i, e);
}

/// Law: a successful call is visible in the dispatch aggregate — when
/// outcome `i` succeeded with `t`, the aggregate is a broadcast result
/// whose success list contains `(name_i, t)`.
pub proof fn lemma_success_recorded_in_aggregate(
    s: Seq<(String, Result<String, AdapterError>)>,
    r: DispatchResult,
    i: int,
    t: String,
)
    requires
        aggregated(s, r),
        0 <= i < s.len(),
        s[i].1 == Ok::<String, AdapterError>(t),
    ensures
        r matches DispatchResult::Broadcast(sv, fv) && sv@.contains((s[i].0, t)),
{
    lemma_success_recorded(s, i, t);
    let k = choose|k: int| 0 <= k < successes_of(s).len() && successes_of(s)[k] == (s[i].0, t);
    assert(successes_of(s).len() > 0);
}

} // verus!
