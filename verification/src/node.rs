//! Nodes: the atomic units of work and their retrying execute phase.

use vstd::prelude::*;

use crate::error::{default_label, normalize_label, ActionName, MinLLMError};
use crate::store::{ParamMap, SharedStore};
use crate::table::Table;
use crate::value::{lemma_models_of_index, models_of, ValModel, Value};

verus! {

broadcast use vstd::seq::group_seq_axioms;

/// The model of a fallible value-producing step.
pub open spec fn res_model(r: Result<Value, MinLLMError>) -> Result<ValModel, MinLLMError> {
    match r {
        Ok(v) => Ok(v@),
        Err(e) => Err(e),
    }
}

/// User-supplied node logic: the three lifecycle phases plus the
/// fallback that runs once every execute attempt has failed.  Each
/// executable phase is pinned to a specification function of the same
/// shape, so that the engine's own contracts can speak about what a
/// whole run computes.
///
/// `attempt` numbers the execute attempts of one run from zero; it
/// replaces mutable per-run retry state on the node itself.
pub trait Node: Sized {
    /// What prepare reads out of the store, as a function of the store
    /// and the node's current parameters.
    spec fn prep_spec(
        &self,
        store: Map<Seq<char>, ValModel>,
        params: Map<Seq<char>, ValModel>,
    ) -> Result<ValModel, MinLLMError>;

    /// What execute returns for a prepared value at a given attempt.
    spec fn exec_spec(&self, prep: ValModel, attempt: usize) -> Result<ValModel, MinLLMError>;

    /// What the fallback returns for the last error once every attempt
    /// has failed; re-raising `err` is the conventional default.
    spec fn fallback_spec(&self, prep: ValModel, err: MinLLMError) -> Result<
        ValModel,
        MinLLMError,
    >;

    /// How post transforms the store and which action label it returns.
    spec fn post_spec(
        &self,
        store: Map<Seq<char>, ValModel>,
        params: Map<Seq<char>, ValModel>,
        prep: ValModel,
        exec_res: ValModel,
    ) -> Result<(Map<Seq<char>, ValModel>, Seq<char>), MinLLMError>;

    /// What prepare yields for a batch flow: one parameter set per
    /// desired run of the subgraph.
    spec fn prep_params_spec(
        &self,
        store: Map<Seq<char>, ValModel>,
        params: Map<Seq<char>, ValModel>,
    ) -> Result<Seq<Map<Seq<char>, ValModel>>, MinLLMError>;

    /// The prepare phase: a read-only side channel into the store.
    fn prep(&self, store: &SharedStore, params: &ParamMap) -> (r: Result<Value, MinLLMError>)
        requires
            store.wf(),
            params.wf(),
        ensures
            res_model(r) == self.prep_spec(store@, params@),
    ;

    /// The execute phase: the node's own work; it may fail and is the
    /// only phase the engine retries.
    fn exec(&self, prep: &Value, attempt: usize) -> (r: Result<Value, MinLLMError>)
        ensures
            res_model(r) == self.exec_spec(prep@, attempt),
    ;

    /// The fallback, called once with the last error after every execute
    /// attempt has failed.
    fn exec_fallback(&self, prep: &Value, err: MinLLMError) -> (r: Result<Value, MinLLMError>)
        ensures
            res_model(r) == self.fallback_spec(prep@, err),
    ;

    /// The post phase: may write the store; returns the action label
    /// that picks the next edge.  A failing post leaves the store as it
    /// was.
    fn post(&self, store: &mut SharedStore, params: &ParamMap, prep: Value, exec_res: Value) -> (r:
        Result<ActionName, MinLLMError>)
        requires
            old(store).wf(),
            params.wf(),
        ensures
            final(store).wf(),
            match self.post_spec(old(store)@, params@, prep@, exec_res@) {
                Ok((m, a)) => r matches Ok(an) && an@ == a && final(store)@ == m,
                Err(e) => r matches Err(e2) && e2 == e && final(store)@ == old(store)@,
            },
    ;

    /// The prepare phase of a batch flow: the parameter sets to run the
    /// subgraph with, one run per element.
    fn prep_params(&self, store: &SharedStore, params: &ParamMap) -> (r: Result<
        Vec<ParamMap>,
        MinLLMError,
    >)
        requires
            store.wf(),
            params.wf(),
        ensures
            match (r, self.prep_params_spec(store@, params@)) {
                (Ok(v), Ok(s)) => v@.len() == s.len() && forall|i: int|
                    0 <= i < v@.len() ==> (#[trigger] v@[i])@ == s[i] && v@[i].wf(),
                (Err(e1), Err(e2)) => e1 == e2,
                _ => false,
            },
    ;
}

/// The do-nothing logic every phase defaults to: prepare and execute
/// yield `Null`, post writes nothing and returns the default action,
/// the fallback re-raises, and a batch prepare yields no parameter sets.
#[derive(Clone, Copy, PartialEq, Eq, Structural, Debug)]
pub struct BaseNode;

impl BaseNode {
    /// The unit logic.
    pub fn new() -> (r: Self)
        ensures
            r == BaseNode,
    {
        BaseNode
    }
}

impl Node for BaseNode {
    open spec fn prep_spec(
        &self,
        store: Map<Seq<char>, ValModel>,
        params: Map<Seq<char>, ValModel>,
    ) -> Result<ValModel, MinLLMError> {
        Ok(ValModel::Null)
    }

    open spec fn exec_spec(&self, prep: ValModel, attempt: usize) -> Result<
        ValModel,
        MinLLMError,
    > {
        Ok(ValModel::Null)
    }

    open spec fn fallback_spec(&self, prep: ValModel, err: MinLLMError) -> Result<
        ValModel,
        MinLLMError,
    > {
        Err(err)
    }

    open spec fn post_spec(
        &self,
        store: Map<Seq<char>, ValModel>,
        params: Map<Seq<char>, ValModel>,
        prep: ValModel,
        exec_res: ValModel,
    ) -> Result<(Map<Seq<char>, ValModel>, Seq<char>), MinLLMError> {
        Ok((store, default_label()))
    }

    open spec fn prep_params_spec(
        &self,
        store: Map<Seq<char>, ValModel>,
        params: Map<Seq<char>, ValModel>,
    ) -> Result<Seq<Map<Seq<char>, ValModel>>, MinLLMError> {
        Ok(Seq::empty())
    }

    fn prep(&self, store: &SharedStore, params: &ParamMap) -> (r: Result<Value, MinLLMError>) {
        Ok(Value::Null)
    }

    fn exec(&self, prep: &Value, attempt: usize) -> (r: Result<Value, MinLLMError>) {
        Ok(Value::Null)
    }

    fn exec_fallback(&self, prep: &Value, err: MinLLMError) -> (r: Result<Value, MinLLMError>) {
        Err(err)
    }

    fn post(&self, store: &mut SharedStore, params: &ParamMap, prep: Value, exec_res: Value) -> (r:
        Result<ActionName, MinLLMError>) {
        Ok(ActionName::new("default"))
    }

    fn prep_params(&self, store: &SharedStore, params: &ParamMap) -> (r: Result<
        Vec<ParamMap>,
        MinLLMError,
    >) {
        Ok(Vec::new())
    }
}

/// The first attempt index in `0 .. n` whose execute succeeds, if any.
pub open spec fn first_success<L: Node>(l: L, prep: ValModel, n: usize) -> Option<usize>
    decreases n,
{
    if n == 0 {
        None
    } else {
        match first_success(l, prep, (n - 1) as usize) {
            Some(k) => Some(k),
            None => if l.exec_spec(prep, (n - 1) as usize) is Ok {
                Some((n - 1) as usize)
            } else {
                None
            },
        }
    }
}

/// Once a first success exists among `m` attempts, looking further never
/// changes it.
pub proof fn lemma_first_success_extend<L: Node>(l: L, prep: ValModel, m: usize, n: usize)
    requires
        m <= n,
        first_success(l, prep, m) is Some,
    ensures
        first_success(l, prep, n) == first_success(l, prep, m),
    decreases n,
{
    if m < n {
        lemma_first_success_extend(l, prep, m, (n - 1) as usize);
    }
}

/// What `first_success` means, attempt by attempt.
pub proof fn lemma_first_success_char<L: Node>(l: L, prep: ValModel, n: usize)
    ensures
        match first_success(l, prep, n) {
            Some(k) => k < n && l.exec_spec(prep, k) is Ok && forall|j: usize|
                j < k ==> #[trigger] l.exec_spec(prep, j) is Err,
            None => forall|j: usize| j < n ==> #[trigger] l.exec_spec(prep, j) is Err,
        },
    decreases n,
{
    if n > 0 {
        lemma_first_success_char(l, prep, (n - 1) as usize);
    }
}

/// What executing with retries returns: the value of the first attempt
/// in `0 .. n` that succeeds; otherwise whatever the fallback makes of
/// the last attempt's error.
pub open spec fn retry_result<L: Node>(l: L, prep: ValModel, n: usize) -> Result<
    ValModel,
    MinLLMError,
> {
    match first_success(l, prep, n) {
        Some(k) => l.exec_spec(prep, k),
        None => match l.exec_spec(prep, (n - 1) as usize) {
            Err(e) => l.fallback_spec(prep, e),
            Ok(v) => Ok(v),
        },
    }
}

/// How many times execute runs: up to and including the first success,
/// or all `n` attempts when none succeeds.
pub open spec fn retry_attempts<L: Node>(l: L, prep: ValModel, n: usize) -> usize {
    match first_success(l, prep, n) {
        Some(k) => (k + 1) as usize,
        None => n,
    }
}

/// Whether the fallback runs: exactly when no attempt succeeds.
pub open spec fn retry_fallback<L: Node>(l: L, prep: ValModel, n: usize) -> bool {
    first_success(l, prep, n) is None
}

/// How many waits the retry loop performs: one between consecutive
/// attempts when a positive wait is configured, and none after the
/// final attempt.
pub open spec fn retry_waits<L: Node>(l: L, prep: ValModel, n: usize, wait: u64) -> usize {
    if wait > 0 {
        (retry_attempts(l, prep, n) - 1) as usize
    } else {
        0
    }
}

/// What one retrying execute phase observably did: how many attempts
/// ran, how many waits separated them, and whether the fallback ran.
#[derive(Clone, Copy, PartialEq, Eq, Structural, Debug)]
pub struct RetryReport {
    pub attempts: usize,
    pub waits: usize,
    pub fallback_used: bool,
}

/// What the retry loop does after one execute attempt: deliver the
/// result, wait and try again, or hand the last error to the fallback.
#[derive(Clone, Copy, PartialEq, Eq, Structural, Debug)]
pub enum RetryDecision {
    Deliver,
    WaitThenRetry(u64),
    Fallback,
}

/// The retry policy's single step, for drivers that run the attempts
/// themselves (an asynchronous loop, for example): a success is
/// delivered; a failure on the last attempt goes to the fallback; any
/// other failure waits the configured time and tries again.
pub fn retry_decision(failed: bool, attempt: usize, max_retries: usize, wait: u64) -> (r:
    RetryDecision)
    requires
        attempt < max_retries,
    ensures
        !failed ==> r == RetryDecision::Deliver,
        failed && attempt + 1 == max_retries ==> r == RetryDecision::Fallback,
        failed && attempt + 1 < max_retries ==> r == RetryDecision::WaitThenRetry(wait),
{
    if !failed {
        RetryDecision::Deliver
    } else if attempt + 1 == max_retries {
        RetryDecision::Fallback
    } else {
        RetryDecision::WaitThenRetry(wait)
    }
}

/// Relies on `parking_lot::Condvar::wait_for`: nothing ever notifies the
/// freshly created condvar, so the call blocks the current thread until
/// the timeout of `ms` milliseconds elapses, then returns.
#[verifier::external_body]
fn sleep_ms(ms: u64) {
    let lock = parking_lot::Mutex::new(());
    let mut guard = lock.lock();
    let cvar = parking_lot::Condvar::new();
    let _ = cvar.wait_for(&mut guard, core::time::Duration::from_millis(ms));
}

/// Run `logic`'s execute phase on `prep` with up to `max_retries`
/// attempts, sleeping `wait` milliseconds after each failed attempt that
/// another one follows; after the last failure, hand the last error to
/// the fallback.  Returns the resulting value and a report of what ran.
#[verifier::loop_isolation(false)]
pub fn exec_with_retry<L: Node>(logic: &L, prep: &Value, max_retries: usize, wait: u64) -> (r: (
    Result<Value, MinLLMError>,
    RetryReport,
))
    requires
        max_retries >= 1,
    ensures
        res_model(r.0) == retry_result(*logic, prep@, max_retries),
        r.1.attempts == retry_attempts(*logic, prep@, max_retries),
        r.1.waits == retry_waits(*logic, prep@, max_retries, wait),
        r.1.fallback_used == retry_fallback(*logic, prep@, max_retries),
{
    let mut attempt: usize = 0;
    let mut waits: usize = 0;
    loop
        invariant
            attempt < max_retries,
            first_success(*logic, prep@, attempt) is None,
            waits == if wait > 0 {
                attempt as int
            } else {
                0
            },
        decreases max_retries - attempt,
    {
        let res = logic.exec(prep, attempt);
        match res {
            Ok(v) => {
                proof {
                    assert(first_success(*logic, prep@, (attempt + 1) as usize) == Some(attempt));
                    lemma_first_success_extend(*logic, prep@, (attempt + 1) as usize, max_retries);
                }
                return (
                    Ok(v),
                    RetryReport { attempts: attempt + 1, waits, fallback_used: false },
                );
            },
            Err(e) => {
                proof {
                    assert(first_success(*logic, prep@, (attempt + 1) as usize) is None);
                }
                if attempt + 1 == max_retries {
                    let fb = logic.exec_fallback(prep, e);
                    return (fb, RetryReport { attempts: max_retries, waits, fallback_used: true });
                }
                if wait > 0 {
                    sleep_ms(wait);
                    waits += 1;
                }
                attempt += 1;
            },
        }
    }
}

/// The items a batch execute works through: a list value yields its
/// elements, an absent value yields no items, and anything else is a
/// node execution error.
pub open spec fn batch_items(prep: ValModel) -> Result<Seq<ValModel>, MinLLMError> {
    match prep {
        ValModel::Null => Ok(Seq::empty()),
        ValModel::List(items) => Ok(items),
        _ => Err(MinLLMError::NodeError),
    }
}

/// The results of retrying execute on each item in order, each item with
/// its own fresh retry budget; the first item whose retries fail aborts
/// the whole batch with that error, surfacing none of the earlier
/// results.
pub open spec fn batch_results<L: Node>(l: L, items: Seq<ValModel>, n: usize) -> Result<
    Seq<ValModel>,
    MinLLMError,
>
    decreases items.len(),
{
    if items.len() == 0 {
        Ok(Seq::empty())
    } else {
        match retry_result(l, items[0], n) {
            Err(e) => Err(e),
            Ok(v) => match batch_results(l, items.skip(1), n) {
                Err(e) => Err(e),
                Ok(rest) => Ok(seq![v] + rest),
            },
        }
    }
}

/// A successful batch produces one result per item, in item order; a
/// failing batch reports the error of the first item whose retries were
/// exhausted, with every earlier item succeeding.
pub proof fn lemma_batch_results_char<L: Node>(l: L, items: Seq<ValModel>, n: usize)
    ensures
        match batch_results(l, items, n) {
            Ok(rs) => rs.len() == items.len() && forall|j: int|
                0 <= j < items.len() ==> #[trigger] retry_result(l, items[j], n) == Ok::<ValModel, MinLLMError>(rs[j]),
            Err(e) => exists|j: int|
                0 <= j < items.len() && #[trigger] retry_result(l, items[j], n) == Err::<ValModel, MinLLMError>(e) && forall|
                    i: int,
                |
                    0 <= i < j ==> #[trigger] retry_result(l, items[i], n) is Ok,
        },
    decreases items.len(),
{
    if items.len() > 0 {
        let tail = items.skip(1);
        lemma_batch_results_char(l, tail, n);
        assert(forall|j: int| 0 <= j < tail.len() ==> tail[j] == items[j + 1]);
        match retry_result(l, items[0], n) {
            Err(e) => {
                assert(retry_result(l, items[0], n) == Err::<ValModel, MinLLMError>(e));
            },
            Ok(v) => {
                match batch_results(l, tail, n) {
                    Ok(rest) => {
                        let rs = seq![v] + rest;
                        assert forall|j: int| 0 <= j < items.len() implies #[trigger] retry_result(
                            l,
                            items[j],
                            n,
                        ) == Ok::<ValModel, MinLLMError>(rs[j]) by {
                            if j > 0 {
                                assert(retry_result(l, tail[j - 1], n) == Ok::<ValModel, MinLLMError>(rest[j - 1]));
                                assert(rs[j] == rest[j - 1]);
                            }
                        }
                    },
                    Err(e) => {
                        let j0 = choose|j0: int|
                            0 <= j0 < tail.len() && #[trigger] retry_result(l, tail[j0], n) == Err::<ValModel, MinLLMError>(
                                e,
                            ) && forall|i: int|
                                0 <= i < j0 ==> #[trigger] retry_result(l, tail[i], n) is Ok;
                        assert(retry_result(l, items[j0 + 1], n) == Err::<ValModel, MinLLMError>(e));
                        assert forall|i: int| 0 <= i < j0 + 1 implies #[trigger] retry_result(
                            l,
                            items[i],
                            n,
                        ) is Ok by {
                            if i > 0 {
                                assert(retry_result(l, tail[i - 1], n) is Ok);
                            }
                        }
                    },
                }
            },
        }
    }
}

/// What a batch execute phase returns for a prepared value: the items'
/// results gathered back into a list value.
pub open spec fn batch_exec<L: Node>(l: L, prep: ValModel, n: usize) -> Result<
    ValModel,
    MinLLMError,
> {
    match batch_items(prep) {
        Err(e) => Err(e),
        Ok(items) => match batch_results(l, items, n) {
            Err(e) => Err(e),
            Ok(rs) => Ok(ValModel::List(rs)),
        },
    }
}

/// The reports a batch execute leaves behind: one per item processed, in
/// item order, each describing that item's own retry loop; a batch that
/// returns a result has processed every item.
pub open spec fn batch_reports_ok<L: Node>(
    l: L,
    prep: ValModel,
    n: usize,
    wait: u64,
    res_ok: bool,
    reports: Seq<RetryReport>,
) -> bool {
    match batch_items(prep) {
        Ok(items) => {
            &&& reports.len() <= items.len()
            &&& (res_ok ==> reports.len() == items.len())
            &&& forall|j: int|
                0 <= j < reports.len() ==> {
                    &&& (#[trigger] reports[j]).attempts == retry_attempts(l, items[j], n)
                    &&& reports[j].waits == retry_waits(l, items[j], n, wait)
                    &&& reports[j].fallback_used == retry_fallback(l, items[j], n)
                }
        },
        Err(_) => reports.len() == 0,
    }
}

/// Run `logic`'s execute phase once per item of the prepared value, each
/// item with its own fresh retry budget, collecting the results in item
/// order; the first item whose retries fail aborts the batch, and the
/// results gathered so far are discarded.
#[verifier::loop_isolation(false)]
pub fn exec_batch_with_retry<L: Node>(logic: &L, prep: &Value, max_retries: usize, wait: u64) -> (r:
    (Result<Value, MinLLMError>, Vec<RetryReport>))
    requires
        max_retries >= 1,
    ensures
        res_model(r.0) == batch_exec(*logic, prep@, max_retries),
        batch_reports_ok(*logic, prep@, max_retries, wait, r.0 is Ok, r.1@),
{
    match prep {
        Value::Null => {
            let empty: Vec<Value> = Vec::new();
            proof {
                assert(models_of(empty@) =~= Seq::<ValModel>::empty());
            }
            (Ok(Value::List(empty)), Vec::new())
        },
        Value::List(items) => {
            let ghost m = models_of(items@);
            proof {
                lemma_models_of_index(items@);
            }
            let mut out: Vec<Value> = Vec::new();
            let mut reports: Vec<RetryReport> = Vec::new();
            let mut i: usize = 0;
            proof {
                assert(m.skip(0) =~= m);
                assert(models_of(out@) =~= Seq::<ValModel>::empty());
                assert(models_of(out@) + m =~= m);
            }
            while i < items.len()
                invariant
                    i <= items.len(),
                    out@.len() == i as int,
                    reports@.len() == i as int,
                    forall|j: int|
                        0 <= j < i as int ==> {
                            &&& (#[trigger] reports@[j]).attempts == retry_attempts(
                                *logic,
                                m[j],
                                max_retries,
                            )
                            &&& reports@[j].waits == retry_waits(*logic, m[j], max_retries, wait)
                            &&& reports@[j].fallback_used == retry_fallback(
                                *logic,
                                m[j],
                                max_retries,
                            )
                        },
                    batch_results(*logic, m, max_retries) == (match batch_results(
                        *logic,
                        m.skip(i as int),
                        max_retries,
                    ) {
                        Ok(rest) => Ok::<Seq<ValModel>, MinLLMError>(models_of(out@) + rest),
                        Err(e) => Err::<Seq<ValModel>, MinLLMError>(e),
                    }),
                decreases items.len() - i,
            {
                let (res, rep) = exec_with_retry(logic, &items[i], max_retries, wait);
                reports.push(rep);
                proof {
                    assert(items@[i as int]@ == m[i as int]);
                    assert(m.skip(i as int).len() > 0);
                    assert(m.skip(i as int)[0] == m[i as int]);
                }
                match res {
                    Ok(v) => {
                        let ghost old_out = out@;
                        out.push(v);
                        proof {
                            assert(m.skip(i as int).skip(1) =~= m.skip(i as int + 1));
                            assert(out@.drop_last() =~= old_out);
                            assert(out@.last() == v);
                            assert(models_of(out@) == models_of(old_out).push(v@));
                            assert forall|rest: Seq<ValModel>|
                                models_of(old_out) + (seq![v@] + rest) =~= models_of(out@)
                                    + rest by {}
                        }
                        i += 1;
                    },
                    Err(e) => {
                        proof {
                            assert(retry_result(*logic, m[i as int], max_retries) == Err::<
                                ValModel,
                                MinLLMError,
                            >(e));
                            assert(batch_results(*logic, m.skip(i as int), max_retries)
                                == Err::<Seq<ValModel>, MinLLMError>(e));
                        }
                        return (Err(e), reports);
                    },
                }
            }
            proof {
                assert(m.skip(items@.len() as int) =~= Seq::<ValModel>::empty());
                assert(batch_results(*logic, m.skip(items@.len() as int), max_retries) == Ok::<
                    Seq<ValModel>,
                    MinLLMError,
                >(Seq::<ValModel>::empty()));
                assert(models_of(out@) + Seq::<ValModel>::empty() =~= models_of(out@));
            }
            (Ok(Value::List(out)), reports)
        },
        _ => (Err(MinLLMError::NodeError), Vec::new()),
    }
}

/// What one whole node run computes from a store and the parameters in
/// force: prepare, then execute with retries (per item when `batch`),
/// then post.  A prepare or post failure, or exhausted retries whose
/// fallback re-raises, fails the run and leaves the store as the
/// completed phases left it.
pub open spec fn node_run_spec<L: Node>(
    l: L,
    batch: bool,
    max_retries: usize,
    store: Map<Seq<char>, ValModel>,
    params: Map<Seq<char>, ValModel>,
) -> Result<(Map<Seq<char>, ValModel>, Seq<char>), MinLLMError> {
    match l.prep_spec(store, params) {
        Err(e) => Err(e),
        Ok(prep) => {
            let er = if batch {
                batch_exec(l, prep, max_retries)
            } else {
                retry_result(l, prep, max_retries)
            };
            match er {
                Err(e) => Err(e),
                Ok(ev) => l.post_spec(store, params, prep, ev),
            }
        },
    }
}

/// Run the three phases in order against `store` with `params` in
/// force: prepare, execute with retries (per item when `batch`), post.
pub fn run_phases<L: Node>(
    logic: &L,
    batch: bool,
    max_retries: usize,
    wait: u64,
    store: &mut SharedStore,
    params: &ParamMap,
) -> (r: Result<ActionName, MinLLMError>)
    requires
        max_retries >= 1,
        old(store).wf(),
        params.wf(),
    ensures
        final(store).wf(),
        match node_run_spec(*logic, batch, max_retries, old(store)@, params@) {
            Ok((m, a)) => r matches Ok(an) && an@ == a && final(store)@ == m,
            Err(e) => r matches Err(e2) && e2 == e && final(store)@ == old(store)@,
        },
{
    let prep = match logic.prep(store, params) {
        Ok(p) => p,
        Err(e) => {
            return Err(e);
        },
    };
    let er = if batch {
        exec_batch_with_retry(logic, &prep, max_retries, wait).0
    } else {
        exec_with_retry(logic, &prep, max_retries, wait).0
    };
    let ev = match er {
        Ok(v) => v,
        Err(e) => {
            return Err(e);
        },
    };
    logic.post(store, params, prep, ev)
}

/// A standalone node: its logic, its parameters, its retry policy, and
/// the successor table a flow resolves actions against.
pub struct RegularNode<L: Node> {
    pub logic: L,
    pub params: ParamMap,
    pub max_retries: usize,
    pub wait: u64,
    pub successors: Table<usize>,
}

impl<L: Node> RegularNode<L> {
    /// Parameters and successors are well formed and at least one
    /// execute attempt is configured.
    pub open spec fn wf(&self) -> bool {
        &&& self.params.wf()
        &&& self.max_retries >= 1
        &&& self.successors.wf()
    }

    /// A node with the given logic and retry policy, no parameters and
    /// no successors.  At least one attempt must be configured.
    pub fn new(logic: L, max_retries: usize, wait: u64) -> (r: Self)
        requires
            max_retries >= 1,
        ensures
            r.wf(),
            r.logic == logic,
            r.max_retries == max_retries,
            r.wait == wait,
            r.params@ == Map::<Seq<char>, ValModel>::empty(),
            r.successors@ == Map::<Seq<char>, usize>::empty(),
            r.successors.kvs().len() == 0,
    {
        RegularNode {
            logic,
            params: Table::new(),
            max_retries,
            wait,
            successors: Table::new(),
        }
    }

    /// Replace the node's parameters.
    pub fn set_params(&mut self, params: ParamMap)
        ensures
            final(self).params == params,
            final(self).logic == old(self).logic,
            final(self).max_retries == old(self).max_retries,
            final(self).wait == old(self).wait,
            final(self).successors == old(self).successors,
    {
        self.params = params;
    }

    /// Register the successor reached by `action` (an empty label means
    /// the default label).  A second registration for the same label
    /// overwrites the first; the returned flag reports that, so the
    /// caller can warn.
    pub fn add_successor(&mut self, action: &str, target: usize) -> (replaced: bool)
        requires
            old(self).successors.wf(),
        ensures
            final(self).successors.wf(),
            final(self).successors@ == old(self).successors@.insert(
                normalize_label(action@),
                target,
            ),
            replaced == old(self).successors@.contains_key(normalize_label(action@)),
            final(self).logic == old(self).logic,
            final(self).params == old(self).params,
            final(self).max_retries == old(self).max_retries,
            final(self).wait == old(self).wait,
    {
        let label: String = if action.is_empty() {
            "default".to_owned()
        } else {
            action.to_owned()
        };
        self.successors.insert(label, target)
    }

    /// Run the node standalone with its own parameters: prepare, execute
    /// with retries, post.  Also reports what the retry loop did, and
    /// whether the node had successors that a standalone run ignores
    /// (the advisory warning: only a flow follows successors).
    pub fn run_report(&self, store: &mut SharedStore) -> (r: (
        Result<ActionName, MinLLMError>,
        RetryReport,
        bool,
    ))
        requires
            self.wf(),
            old(store).wf(),
        ensures
            final(store).wf(),
            match node_run_spec(self.logic, false, self.max_retries, old(store)@, self.params@) {
                Ok((m, a)) => r.0 matches Ok(an) && an@ == a && final(store)@ == m,
                Err(e) => r.0 matches Err(e2) && e2 == e && final(store)@ == old(store)@,
            },
            match self.logic.prep_spec(old(store)@, self.params@) {
                Ok(p) => {
                    &&& r.1.attempts == retry_attempts(self.logic, p, self.max_retries)
                    &&& r.1.waits == retry_waits(self.logic, p, self.max_retries, self.wait)
                    &&& r.1.fallback_used == retry_fallback(self.logic, p, self.max_retries)
                },
                Err(_) => r.1.attempts == 0 && r.1.waits == 0 && !r.1.fallback_used,
            },
            r.2 == (self.successors.kvs().len() != 0),
    {
        let warned = !self.successors.is_empty();
        let prep = match self.logic.prep(store, &self.params) {
            Ok(p) => p,
            Err(e) => {
                return (Err(e), RetryReport { attempts: 0, waits: 0, fallback_used: false }, warned);
            },
        };
        let (er, rep) = exec_with_retry(&self.logic, &prep, self.max_retries, self.wait);
        let ev = match er {
            Ok(v) => v,
            Err(e) => {
                return (Err(e), rep, warned);
            },
        };
        let pr = self.logic.post(store, &self.params, prep, ev);
        (pr, rep, warned)
    }

    /// Run the node standalone; see `run_report`.
    pub fn run(&self, store: &mut SharedStore) -> (r: Result<ActionName, MinLLMError>)
        requires
            self.wf(),
            old(store).wf(),
        ensures
            final(store).wf(),
            match node_run_spec(self.logic, false, self.max_retries, old(store)@, self.params@) {
                Ok((m, a)) => r matches Ok(an) && an@ == a && final(store)@ == m,
                Err(e) => r matches Err(e2) && e2 == e && final(store)@ == old(store)@,
            },
    {
        self.run_report(store).0
    }
}

/// A node whose execute phase replays once per element of the prepared
/// list of items, each element with its own fresh retry budget.
pub struct BatchNode<L: Node> {
    pub node: RegularNode<L>,
}

impl<L: Node> BatchNode<L> {
    /// See `RegularNode::wf`.
    pub open spec fn wf(&self) -> bool {
        self.node.wf()
    }

    /// A batch node with the given logic and retry policy.
    pub fn new(logic: L, max_retries: usize, wait: u64) -> (r: Self)
        requires
            max_retries >= 1,
        ensures
            r.wf(),
            r.node.logic == logic,
            r.node.max_retries == max_retries,
            r.node.wait == wait,
            r.node.params@ == Map::<Seq<char>, ValModel>::empty(),
            r.node.successors@ == Map::<Seq<char>, usize>::empty(),
            r.node.successors.kvs().len() == 0,
    {
        BatchNode { node: RegularNode::new(logic, max_retries, wait) }
    }

    /// Replace the node's parameters.
    pub fn set_params(&mut self, params: ParamMap)
        ensures
            final(self).node.params == params,
            final(self).node.logic == old(self).node.logic,
            final(self).node.max_retries == old(self).node.max_retries,
            final(self).node.wait == old(self).node.wait,
            final(self).node.successors == old(self).node.successors,
    {
        self.node.set_params(params);
    }

    /// Register the successor reached by `action`; see
    /// `RegularNode::add_successor`.
    pub fn add_successor(&mut self, action: &str, target: usize) -> (replaced: bool)
        requires
            old(self).node.successors.wf(),
        ensures
            final(self).node.successors.wf(),
            final(self).node.successors@ == old(self).node.successors@.insert(
                normalize_label(action@),
                target,
            ),
            replaced == old(self).node.successors@.contains_key(normalize_label(action@)),
            final(self).node.logic == old(self).node.logic,
            final(self).node.params == old(self).node.params,
            final(self).node.max_retries == old(self).node.max_retries,
            final(self).node.wait == old(self).node.wait,
    {
        self.node.add_successor(action, target)
    }

    /// Run the batch node standalone with its own parameters: prepare,
    /// execute each prepared item with retries, post the collected list.
    /// Also reports each processed item's retry loop, and whether the
    /// node had successors that a standalone run ignores.
    pub fn run_report(&self, store: &mut SharedStore) -> (r: (
        Result<ActionName, MinLLMError>,
        Vec<RetryReport>,
        bool,
    ))
        requires
            self.wf(),
            old(store).wf(),
        ensures
            final(store).wf(),
            match node_run_spec(
                self.node.logic,
                true,
                self.node.max_retries,
                old(store)@,
                self.node.params@,
            ) {
                Ok((m, a)) => r.0 matches Ok(an) && an@ == a && final(store)@ == m,
                Err(e) => r.0 matches Err(e2) && e2 == e && final(store)@ == old(store)@,
            },
            match self.node.logic.prep_spec(old(store)@, self.node.params@) {
                Ok(p) => batch_reports_ok(
                    self.node.logic,
                    p,
                    self.node.max_retries,
                    self.node.wait,
                    batch_exec(self.node.logic, p, self.node.max_retries) is Ok,
                    r.1@,
                ),
                Err(_) => r.1@.len() == 0,
            },
            r.2 == (self.node.successors.kvs().len() != 0),
    {
        let warned = !self.node.successors.is_empty();
        let prep = match self.node.logic.prep(store, &self.node.params) {
            Ok(p) => p,
            Err(e) => {
                return (Err(e), Vec::new(), warned);
            },
        };
        let (er, reps) = exec_batch_with_retry(
            &self.node.logic,
            &prep,
            self.node.max_retries,
            self.node.wait,
        );
        let ev = match er {
            Ok(v) => v,
            Err(e) => {
                return (Err(e), reps, warned);
            },
        };
        let pr = self.node.logic.post(store, &self.node.params, prep, ev);
        (pr, reps, warned)
    }

    /// Run the batch node standalone; see `run_report`.
    pub fn run(&self, store: &mut SharedStore) -> (r: Result<ActionName, MinLLMError>)
        requires
            self.wf(),
            old(store).wf(),
        ensures
            final(store).wf(),
            match node_run_spec(
                self.node.logic,
                true,
                self.node.max_retries,
                old(store)@,
                self.node.params@,
            ) {
                Ok((m, a)) => r matches Ok(an) && an@ == a && final(store)@ == m,
                Err(e) => r matches Err(e2) && e2 == e && final(store)@ == old(store)@,
            },
    {
        self.run_report(store).0
    }
}

/// A node as it sits in a flow's graph: a single-execute node or a
/// batch node.
pub enum GraphNode<L: Node> {
    Regular(RegularNode<L>),
    Batch(BatchNode<L>),
}

impl<L: Node> GraphNode<L> {
    /// The underlying node record.
    pub open spec fn regular(&self) -> RegularNode<L> {
        match self {
            GraphNode::Regular(n) => *n,
            GraphNode::Batch(b) => b.node,
        }
    }

    /// Whether the execute phase replays per item.
    pub open spec fn is_batch(&self) -> bool {
        self is Batch
    }

    /// See `RegularNode::wf`.
    pub open spec fn wf(&self) -> bool {
        self.regular().wf()
    }

    /// Register the successor reached by `action`; see
    /// `RegularNode::add_successor`.
    pub fn add_successor(&mut self, action: &str, target: usize) -> (replaced: bool)
        requires
            old(self).regular().successors.wf(),
        ensures
            final(self).regular().successors.wf(),
            final(self).regular().successors@ == old(self).regular().successors@.insert(
                normalize_label(action@),
                target,
            ),
            replaced == old(self).regular().successors@.contains_key(normalize_label(action@)),
            final(self).regular().logic == old(self).regular().logic,
            final(self).regular().params == old(self).regular().params,
            final(self).regular().max_retries == old(self).regular().max_retries,
            final(self).regular().wait == old(self).regular().wait,
            final(self).is_batch() == old(self).is_batch(),
    {
        match self {
            GraphNode::Regular(n) => n.add_successor(action, target),
            GraphNode::Batch(b) => b.add_successor(action, target),
        }
    }

    /// The node's successor table.
    pub fn successors_ref(&self) -> (r: &Table<usize>)
        ensures
            *r == self.regular().successors,
    {
        match self {
            GraphNode::Regular(n) => &n.successors,
            GraphNode::Batch(b) => &b.node.successors,
        }
    }

    /// Run the node's three phases with the given parameters in force
    /// (a flow propagates its own parameters this way, overriding the
    /// node's).
    pub fn run_with_params(&self, store: &mut SharedStore, params: &ParamMap) -> (r: Result<
        ActionName,
        MinLLMError,
    >)
        requires
            self.wf(),
            old(store).wf(),
            params.wf(),
        ensures
            final(store).wf(),
            match node_run_spec(
                self.regular().logic,
                self.is_batch(),
                self.regular().max_retries,
                old(store)@,
                params@,
            ) {
                Ok((m, a)) => r matches Ok(an) && an@ == a && final(store)@ == m,
                Err(e) => r matches Err(e2) && e2 == e && final(store)@ == old(store)@,
            },
    {
        match self {
            GraphNode::Regular(n) => run_phases(
                &n.logic,
                false,
                n.max_retries,
                n.wait,
                store,
                params,
            ),
            GraphNode::Batch(b) => run_phases(
                &b.node.logic,
                true,
                b.node.max_retries,
                b.node.wait,
                store,
                params,
            ),
        }
    }
}

} // verus!
