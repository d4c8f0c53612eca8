//! The engine's guarantees, stated and proved once and for all: how the
//! retry loop counts attempts and waits, what overwriting a successor
//! leaves behind, which edge an action follows, and how batches compose.

use vstd::prelude::*;

use crate::error::{default_label, normalize_label, MinLLMError};
use crate::flow::{batch_traverse_spec, resolve_spec, traverse_spec, batch_flow_run_spec};
use crate::node::{
    batch_exec, batch_items, batch_results, first_success, lemma_batch_results_char,
    lemma_first_success_char, retry_attempts, retry_fallback, retry_result, retry_waits, GraphNode,
    Node,
};
use crate::value::ValModel;

verus! {

broadcast use vstd::seq::group_seq_axioms;

/// A permanently failing execute phase is attempted exactly `n` times —
/// the whole retry budget — and then the fallback runs, once, on the
/// last attempt's error.
pub proof fn lemma_permanent_failure_exhausts_retries<L: Node>(l: L, prep: ValModel, n: usize)
    requires
        n >= 1,
        forall|k: usize| k < n ==> (#[trigger] l.exec_spec(prep, k)) is Err,
    ensures
        retry_attempts(l, prep, n) == n,
        retry_fallback(l, prep, n),
        retry_result(l, prep, n) == (match l.exec_spec(prep, (n - 1) as usize) {
            Err(e) => l.fallback_spec(prep, e),
            Ok(v) => Ok::<ValModel, MinLLMError>(v),
        }),
{
    lemma_first_success_char(l, prep, n);
    match first_success(l, prep, n) {
        Some(k) => {
            assert(l.exec_spec(prep, k) is Ok);
            assert(l.exec_spec(prep, k) is Err);
        },
        None => {},
    }
}

/// With a positive wait and a permanently failing execute, exactly
/// `n - 1` waits separate the `n` attempts; no wait follows the final
/// attempt.
pub proof fn lemma_permanent_failure_waits<L: Node>(l: L, prep: ValModel, n: usize, wait: u64)
    requires
        n >= 1,
        wait > 0,
        forall|k: usize| k < n ==> (#[trigger] l.exec_spec(prep, k)) is Err,
    ensures
        retry_waits(l, prep, n, wait) == n - 1,
{
    lemma_permanent_failure_exhausts_retries(l, prep, n);
}

/// An execute phase that first succeeds at attempt `k` stops there: `k`
/// failures and one success make `k + 1` attempts, the success is the
/// result, and the fallback never runs.
pub proof fn lemma_success_stops_retries<L: Node>(l: L, prep: ValModel, n: usize, k: usize)
    requires
        k < n,
        l.exec_spec(prep, k) is Ok,
        forall|j: usize| j < k ==> (#[trigger] l.exec_spec(prep, j)) is Err,
    ensures
        retry_attempts(l, prep, n) == k + 1,
        !retry_fallback(l, prep, n),
        retry_result(l, prep, n) == l.exec_spec(prep, k),
{
    lemma_first_success_char(l, prep, n);
    match first_success(l, prep, n) {
        Some(k2) => {
            if k2 < k {
                assert(l.exec_spec(prep, k2) is Err);
                assert(l.exec_spec(prep, k2) is Ok);
            } else if k < k2 {
                assert(l.exec_spec(prep, k) is Err);
            }
        },
        None => {
            assert(l.exec_spec(prep, k) is Err);
        },
    }
}

/// Registering a second successor for the same action overwrites the
/// first: the table maps the action to the later target, holds no other
/// binding for it, and gains no other key.
pub proof fn lemma_successor_overwrite(
    succ: Map<Seq<char>, usize>,
    action: Seq<char>,
    first: usize,
    second: usize,
)
    ensures
        succ.insert(action, first).insert(action, second) == succ.insert(action, second),
        succ.insert(action, first).insert(action, second)[action] == second,
        succ.insert(action, first).insert(action, second).dom() == succ.dom().insert(action),
{
    assert(succ.insert(action, first).insert(action, second) =~= succ.insert(action, second));
    assert(succ.insert(action, second).dom() =~= succ.dom().insert(action));
}

/// An action with no successor of its own follows the default edge when
/// one is registered; a node with neither edge ends the flow (which is
/// not an error: `resolve_spec` merely reports no successor).
pub proof fn lemma_default_edge(succ: Map<Seq<char>, usize>, action: Seq<char>)
    requires
        normalize_label(action) != default_label(),
        !succ.contains_key(normalize_label(action)),
    ensures
        succ.contains_key(default_label()) ==> resolve_spec(succ, action) == Some(
            succ[default_label()],
        ),
        !succ.contains_key(default_label()) ==> resolve_spec(succ, action) is None,
{
}

/// A batch flow whose prepare yields no parameter sets performs zero
/// subgraph runs — the traversal leaves the store untouched — and still
/// invokes the flow's own post phase, whose result is the run's result.
pub proof fn lemma_empty_batch_flow_posts<L: Node>(
    l: L,
    nodes: Seq<GraphNode<L>>,
    start: int,
    params: Map<Seq<char>, ValModel>,
    store: Map<Seq<char>, ValModel>,
    fuels: Seq<nat>,
)
    requires
        l.prep_params_spec(store, params) == Ok::<Seq<Map<Seq<char>, ValModel>>, MinLLMError>(
            Seq::empty(),
        ),
    ensures
        batch_traverse_spec(nodes, start, Seq::empty(), params, store, fuels) == Some(
            (store, Ok::<(), MinLLMError>(())),
        ),
        batch_flow_run_spec(l, nodes, start, params, store, fuels) == (match l.post_spec(
            store,
            params,
            ValModel::Null,
            ValModel::Null,
        ) {
            Err(e) => Some((store, Err::<Seq<char>, MinLLMError>(e))),
            Ok((s3, a)) => Some((s3, Ok::<Seq<char>, MinLLMError>(a))),
        }),
{
}

/// A batch with an item whose retries are exhausted aborts with an
/// error: no list of the earlier items' results is surfaced.
pub proof fn lemma_batch_aborts_on_failure<L: Node>(l: L, items: Seq<ValModel>, n: usize, j: int)
    requires
        0 <= j < items.len(),
        retry_result(l, items[j], n) is Err,
    ensures
        batch_results(l, items, n) is Err,
        forall|prep: ValModel| batch_items(prep) == Ok::<Seq<ValModel>, MinLLMError>(items)
            ==> (#[trigger] batch_exec(l, prep, n)) is Err,
{
    lemma_batch_results_char(l, items, n);
    match batch_results(l, items, n) {
        Ok(rs) => {
            assert(retry_result(l, items[j], n) == Ok::<ValModel, MinLLMError>(rs[j]));
        },
        Err(_) => {},
    }
}

/// Sequential batch-flow runs accumulate store keys: when each run,
/// started on any store, writes its own key and preserves the keys
/// already present, the store after all runs holds every run's key —
/// and everything the initial store held.
pub proof fn lemma_batch_runs_accumulate_keys<L: Node>(
    nodes: Seq<GraphNode<L>>,
    start: int,
    sets: Seq<Map<Seq<char>, ValModel>>,
    fparams: Map<Seq<char>, ValModel>,
    store: Map<Seq<char>, ValModel>,
    fuels: Seq<nat>,
    keys: Seq<Seq<char>>,
    out_store: Map<Seq<char>, ValModel>,
)
    requires
        keys.len() == sets.len(),
        batch_traverse_spec(nodes, start, sets, fparams, store, fuels) == Some(
            (out_store, Ok::<(), MinLLMError>(())),
        ),
        forall|i: int, s: Map<Seq<char>, ValModel>, f: nat|
            0 <= i < sets.len() ==> match #[trigger] traverse_spec(
                nodes,
                start,
                fparams.union_prefer_right(sets[i]),
                s,
                f,
            ) {
                Some((s2, res)) => res is Ok ==> s2.contains_key(keys[i]) && (forall|k: Seq<char>|
                    s.contains_key(k) ==> s2.contains_key(k)),
                None => true,
            },
    ensures
        forall|i: int| 0 <= i < keys.len() ==> out_store.contains_key(#[trigger] keys[i]),
        forall|k: Seq<char>| store.contains_key(k) ==> out_store.contains_key(k),
    decreases sets.len(),
{
    if sets.len() > 0 {
        assert(fuels.len() != 0) by {
            if fuels.len() == 0 {
                assert(batch_traverse_spec(nodes, start, sets, fparams, store, fuels) is None);
            }
        }
        match traverse_spec(nodes, start, fparams.union_prefer_right(sets[0]), store, fuels[0]) {
            None => {
                assert(batch_traverse_spec(nodes, start, sets, fparams, store, fuels) is None);
            },
            Some((s2, res)) => {
                if res is Err {
                    assert(batch_traverse_spec(nodes, start, sets, fparams, store, fuels) == Some(
                        (s2, res),
                    ));
                }
                assert(res == Ok::<(), MinLLMError>(())) by {
                    assert(res is Ok);
                    assert(res->Ok_0 == ());
                }
                assert(batch_traverse_spec(
                    nodes,
                    start,
                    sets.skip(1),
                    fparams,
                    s2,
                    fuels.skip(1),
                ) == Some((out_store, Ok::<(), MinLLMError>(()))));
                assert(s2.contains_key(keys[0]) && (forall|k: Seq<char>|
                    store.contains_key(k) ==> s2.contains_key(k)));
                assert forall|i: int, s: Map<Seq<char>, ValModel>, f: nat|
                    0 <= i < sets.skip(1).len() implies match #[trigger] traverse_spec(
                    nodes,
                    start,
                    fparams.union_prefer_right(sets.skip(1)[i]),
                    s,
                    f,
                ) {
                    Some((s3, res)) => res is Ok ==> s3.contains_key(keys.skip(1)[i]) && (forall|
                        k: Seq<char>,
                    |
                        s.contains_key(k) ==> s3.contains_key(k)),
                    None => true,
                } by {
                    assert(sets.skip(1)[i] == sets[i + 1]);
                    assert(keys.skip(1)[i] == keys[i + 1]);
                    assert(0 <= i + 1 < sets.len());
                    let t = traverse_spec(
                        nodes,
                        start,
                        fparams.union_prefer_right(sets[i + 1]),
                        s,
                        f,
                    );
                    assert(match t {
                        Some((s3, res)) => res is Ok ==> s3.contains_key(keys[i + 1]) && (forall|
                            k: Seq<char>,
                        |
                            s.contains_key(k) ==> s3.contains_key(k)),
                        None => true,
                    });
                }
                lemma_batch_runs_accumulate_keys(
                    nodes,
                    start,
                    sets.skip(1),
                    fparams,
                    s2,
                    fuels.skip(1),
                    keys.skip(1),
                    out_store,
                );
                assert forall|i: int| 0 <= i < keys.len() implies out_store.contains_key(
                    #[trigger] keys[i],
                ) by {
                    if i == 0 {
                        assert(s2.contains_key(keys[0]));
                    } else {
                        assert(keys.skip(1)[i - 1] == keys[i]);
                    }
                }
            },
        }
    }
}

} // verus!
