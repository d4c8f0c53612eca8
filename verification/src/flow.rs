//! Flows: graph traversal driven by the actions nodes return.

use vstd::prelude::*;

use crate::error::{default_label, normalize_label, ActionName, MinLLMError};
use crate::node::{node_run_spec, GraphNode, Node};
use crate::store::{merge_params, ParamMap, SharedStore};
use crate::table::Table;
use crate::value::{ValModel, Value};

verus! {

broadcast use vstd::seq::group_seq_axioms;

/// Which successor a returned action selects: the exact (normalized)
/// label if registered; otherwise the default label, unless the action
/// already was the default; otherwise none, which ends the flow at this
/// node.
pub open spec fn resolve_spec(succ: Map<Seq<char>, usize>, action: Seq<char>) -> Option<usize> {
    let a = normalize_label(action);
    if succ.contains_key(a) {
        Some(succ[a])
    } else if a != default_label() && succ.contains_key(default_label()) {
        Some(succ[default_label()])
    } else {
        None
    }
}

/// What resolving an action yields: the next node, or the end of the
/// flow.  A terminal outcome carries whether the node had successors
/// registered that the action did not match — the advisory warning that
/// helps diagnose graph wiring mistakes.
#[derive(Clone, Copy, PartialEq, Eq, Structural, Debug)]
pub enum NextNode {
    Found(usize),
    Terminal(bool),
}

/// Resolve `action` against a node's successor table; see
/// [`resolve_spec`].
pub fn get_next_node(succ: &Table<usize>, action: &ActionName) -> (r: NextNode)
    requires
        succ.wf(),
    ensures
        match resolve_spec(succ@, action@) {
            Some(t) => r == NextNode::Found(t),
            None => r == NextNode::Terminal(succ.kvs().len() != 0),
        },
{
    let label: String = if action.0.as_str().is_empty() {
        "default".to_owned()
    } else {
        action.0.clone()
    };
    let warned = !succ.is_empty();
    match succ.get(&label) {
        Some(t) => NextNode::Found(*t),
        None => {
            let sentinel: String = "default".to_owned();
            if label == sentinel {
                NextNode::Terminal(warned)
            } else {
                match succ.get(&sentinel) {
                    Some(t) => NextNode::Found(*t),
                    None => NextNode::Terminal(warned),
                }
            }
        },
    }
}

/// More node runs than any machine performs: the traversal budget.
pub open spec fn max_fuel() -> nat {
    usize::MAX as nat
}

/// Every edge of a successor table points at a node of the graph.
pub open spec fn edges_ok<L: Node>(nodes: Seq<GraphNode<L>>, succ: Map<Seq<char>, usize>) -> bool {
    forall|a: Seq<char>| succ.contains_key(a) ==> (#[trigger] succ[a]) < nodes.len()
}

/// What traversing the graph from node `cur` computes, with `fuel`
/// bounding how many nodes may still run (`None` when the fuel runs
/// out): run the current node with the flow's parameters, resolve its
/// action, and continue until no successor matches.  A node failure
/// ends the traversal with that error and the store as completed nodes
/// left it.
pub open spec fn traverse_spec<L: Node>(
    nodes: Seq<GraphNode<L>>,
    cur: int,
    params: Map<Seq<char>, ValModel>,
    store: Map<Seq<char>, ValModel>,
    fuel: nat,
) -> Option<(Map<Seq<char>, ValModel>, Result<(), MinLLMError>)>
    decreases fuel,
{
    if fuel == 0 {
        None
    } else if !(0 <= cur < nodes.len()) {
        Some((store, Err(MinLLMError::FlowError)))
    } else {
        let gn = nodes[cur];
        match node_run_spec(
            gn.regular().logic,
            gn.is_batch(),
            gn.regular().max_retries,
            store,
            params,
        ) {
            Err(e) => Some((store, Err(e))),
            Ok((store2, action)) => match resolve_spec(gn.regular().successors@, action) {
                None => Some((store2, Ok(()))),
                Some(nxt) => traverse_spec(nodes, nxt as int, params, store2, (fuel - 1) as nat),
            },
        }
    }
}

/// A traversal that completes within its fuel computes the same thing at
/// any larger fuel: the fuel only bounds the traversal, never picks its
/// result.
pub proof fn lemma_traverse_mono<L: Node>(
    nodes: Seq<GraphNode<L>>,
    cur: int,
    params: Map<Seq<char>, ValModel>,
    store: Map<Seq<char>, ValModel>,
    f1: nat,
    f2: nat,
)
    requires
        f1 <= f2,
        traverse_spec(nodes, cur, params, store, f1) is Some,
    ensures
        traverse_spec(nodes, cur, params, store, f2) == traverse_spec(nodes, cur, params, store, f1),
    decreases f1,
{
    if f1 > 0 && 0 <= cur < nodes.len() {
        let gn = nodes[cur];
        match node_run_spec(
            gn.regular().logic,
            gn.is_batch(),
            gn.regular().max_retries,
            store,
            params,
        ) {
            Err(_) => {},
            Ok((store2, action)) => match resolve_spec(gn.regular().successors@, action) {
                None => {},
                Some(nxt) => {
                    lemma_traverse_mono(
                        nodes,
                        nxt as int,
                        params,
                        store2,
                        (f1 - 1) as nat,
                        (f2 - 1) as nat,
                    );
                },
            },
        }
    }
}

/// What one whole flow run computes at a given traversal fuel: the
/// flow's own prepare, then the traversal from the start node, then the
/// flow's own post, whose action is what the flow reports to its caller.
pub open spec fn flow_run_spec<L: Node>(
    logic: L,
    nodes: Seq<GraphNode<L>>,
    start: int,
    params: Map<Seq<char>, ValModel>,
    store: Map<Seq<char>, ValModel>,
    fuel: nat,
) -> Option<(Map<Seq<char>, ValModel>, Result<Seq<char>, MinLLMError>)> {
    match logic.prep_spec(store, params) {
        Err(e) => Some((store, Err(e))),
        Ok(prep) => match traverse_spec(nodes, start, params, store, fuel) {
            None => None,
            Some((s2, Err(e))) => Some((s2, Err(e))),
            Some((s2, Ok(()))) => match logic.post_spec(s2, params, prep, ValModel::Null) {
                Err(e) => Some((s2, Err(e))),
                Ok((s3, a)) => Some((s3, Ok(a))),
            },
        },
    }
}

/// Whether a run outcome (a store model and an action or error) is what
/// a run that left `store_after` behind and returned `r` observed.  An
/// outcome the budget could not reach — a cyclic graph that runs more
/// nodes than [`max_fuel`], never seen in practice — is reported as a
/// flow error.
pub open spec fn run_outcome_matches(
    o: Option<(Map<Seq<char>, ValModel>, Result<Seq<char>, MinLLMError>)>,
    store_after: Map<Seq<char>, ValModel>,
    r: Result<ActionName, MinLLMError>,
) -> bool {
    match o {
        Some((m, res)) => store_after == m && (match (res, r) {
            (Ok(a), Ok(an)) => an@ == a,
            (Err(e), Err(e2)) => e2 == e,
            _ => false,
        }),
        None => r matches Err(e) && e == MinLLMError::FlowError,
    }
}

/// A flow: a graph of nodes owned by index, an entry node, the flow's
/// own parameters (propagated to every node it runs), its own logic for
/// the prepare and post phases around the traversal, and its own
/// successor table for when the flow itself stands inside a larger
/// graph.
pub struct Flow<L: Node> {
    pub logic: L,
    pub params: ParamMap,
    pub nodes: Vec<GraphNode<L>>,
    pub start: usize,
    pub successors: Table<usize>,
}

impl<L: Node> Flow<L> {
    /// The graph is non-empty, the start node exists, every node is well
    /// formed and every edge points at a node.
    pub open spec fn graph_wf(&self) -> bool {
        &&& self.nodes@.len() > 0
        &&& (self.start as int) < self.nodes@.len()
        &&& forall|i: int| 0 <= i < self.nodes@.len() ==> (#[trigger] self.nodes@[i]).wf()
        &&& forall|i: int|
            0 <= i < self.nodes@.len() ==> edges_ok(
                self.nodes@,
                (#[trigger] self.nodes@[i]).regular().successors@,
            )
    }

    /// The whole flow is well formed.
    pub open spec fn wf(&self) -> bool {
        &&& self.params.wf()
        &&& self.successors.wf()
        &&& self.graph_wf()
    }

    /// A flow whose graph holds only the given start node, which must
    /// not be wired yet (edges are added through [`Flow::connect`], so
    /// that every edge target exists).
    pub fn new(logic: L, start_node: GraphNode<L>) -> (r: Self)
        requires
            start_node.wf(),
            start_node.regular().successors.kvs().len() == 0,
        ensures
            r.wf(),
            r.logic == logic,
            r.params@ == Map::<Seq<char>, ValModel>::empty(),
            r.nodes@.len() == 1,
            r.nodes@[0] == start_node,
            r.start == 0,
    {
        let nodes = vec![start_node];
        let r = Flow { logic, params: Table::new(), nodes, start: 0, successors: Table::new() };
        proof {
            assert forall|i: int| 0 <= i < r.nodes@.len() implies edges_ok(
                r.nodes@,
                (#[trigger] r.nodes@[i]).regular().successors@,
            ) by {
                let succ = r.nodes@[i].regular().successors;
                assert forall|a: Seq<char>| succ@.contains_key(a) implies (#[trigger] succ@[a])
                    < r.nodes@.len() by {
                    assert(succ.spec_contains(a));
                }
            }
        }
        r
    }

    /// Add a node to the graph, unwired; returns its index.
    pub fn add_node(&mut self, node: GraphNode<L>) -> (idx: usize)
        requires
            old(self).wf(),
            node.wf(),
            node.regular().successors.kvs().len() == 0,
        ensures
            final(self).wf(),
            idx == old(self).nodes@.len(),
            final(self).nodes@ == old(self).nodes@.push(node),
            final(self).logic == old(self).logic,
            final(self).params == old(self).params,
            final(self).start == old(self).start,
            final(self).successors == old(self).successors,
    {
        let idx = self.nodes.len();
        self.nodes.push(node);
        proof {
            assert forall|i: int| 0 <= i < self.nodes@.len() implies edges_ok(
                self.nodes@,
                (#[trigger] self.nodes@[i]).regular().successors@,
            ) by {
                let succ = self.nodes@[i].regular().successors;
                if i < idx {
                    assert(self.nodes@[i] == old(self).nodes@[i]);
                    assert(edges_ok(old(self).nodes@, succ@));
                    assert forall|a: Seq<char>| succ@.contains_key(a) implies (#[trigger] succ@[a])
                        < self.nodes@.len() by {
                        assert(succ@[a] < old(self).nodes@.len());
                    }
                } else {
                    assert forall|a: Seq<char>| succ@.contains_key(a) implies (
                    #[trigger] succ@[a]) < self.nodes@.len() by {
                        assert(succ.spec_contains(a));
                    }
                }
            }
        }
        idx
    }

    /// Wire the edge labelled `action` (an empty label means the default
    /// label) from node `from` to node `to`.  Overwriting an existing
    /// edge is reported with `Ok(true)` — the advisory warning.  An
    /// index that names no node is a wiring error.
    pub fn connect(&mut self, from: usize, action: &str, to: usize) -> (r: Result<
        bool,
        MinLLMError,
    >)
        requires
            old(self).wf(),
        ensures
            final(self).wf(),
            from < old(self).nodes@.len() && to < old(self).nodes@.len() ==> {
                &&& r matches Ok(replaced) && replaced == old(self).nodes@[
                    from as int
                ].regular().successors@.contains_key(normalize_label(action@))
                &&& final(self).nodes@.len() == old(self).nodes@.len()
                &&& final(self).nodes@[from as int].regular().successors@ == old(self).nodes@[
                    from as int
                ].regular().successors@.insert(normalize_label(action@), to)
                &&& final(self).nodes@[from as int].regular().logic == old(self).nodes@[
                    from as int
                ].regular().logic
                &&& final(self).nodes@[from as int].regular().params == old(self).nodes@[
                    from as int
                ].regular().params
                &&& final(self).nodes@[from as int].regular().max_retries == old(self).nodes@[
                    from as int
                ].regular().max_retries
                &&& final(self).nodes@[from as int].regular().wait == old(self).nodes@[
                    from as int
                ].regular().wait
                &&& final(self).nodes@[from as int].is_batch() == old(self).nodes@[
                    from as int
                ].is_batch()
                &&& forall|i: int|
                    0 <= i < old(self).nodes@.len() && i != from as int ==> final(self).nodes@[i]
                        == old(self).nodes@[i]
                &&& final(self).logic == old(self).logic
                &&& final(self).params == old(self).params
                &&& final(self).start == old(self).start
                &&& final(self).successors == old(self).successors
            },
            !(from < old(self).nodes@.len() && to < old(self).nodes@.len()) ==> (r matches Err(e)
                && e == MinLLMError::FlowError && *final(self) == *old(self)),
    {
        if from >= self.nodes.len() || to >= self.nodes.len() {
            return Err(MinLLMError::FlowError);
        }
        let replaced = self.nodes[from].add_successor(action, to);
        proof {
            assert forall|i: int| 0 <= i < self.nodes@.len() implies edges_ok(
                self.nodes@,
                (#[trigger] self.nodes@[i]).regular().successors@,
            ) by {
                let succ = self.nodes@[i].regular().successors;
                if i == from as int {
                    let oldsucc = old(self).nodes@[i].regular().successors;
                    assert(edges_ok(old(self).nodes@, oldsucc@));
                    assert forall|a: Seq<char>| succ@.contains_key(a) implies (#[trigger] succ@[a])
                        < self.nodes@.len() by {
                        if a != normalize_label(action@) {
                            assert(succ@[a] == oldsucc@[a]);
                        }
                    }
                } else {
                    assert(self.nodes@[i] == old(self).nodes@[i]);
                    assert(edges_ok(old(self).nodes@, succ@));
                }
            }
        }
        Ok(replaced)
    }

    /// Make node `idx` the graph's entry point.  An index that names no
    /// node is a wiring error.
    pub fn set_start(&mut self, idx: usize) -> (r: Result<(), MinLLMError>)
        requires
            old(self).wf(),
        ensures
            final(self).wf(),
            idx < old(self).nodes@.len() ==> (r matches Ok(()) && *final(self) == (Flow {
                start: idx,
                ..*old(self)
            })),
            idx >= old(self).nodes@.len() ==> (r matches Err(e) && e == MinLLMError::FlowError
                && *final(self) == *old(self)),
    {
        if idx >= self.nodes.len() {
            return Err(MinLLMError::FlowError);
        }
        self.start = idx;
        Ok(())
    }

    /// Replace the flow's own parameters, which every node it runs
    /// receives.
    pub fn set_params(&mut self, params: ParamMap)
        ensures
            *final(self) == (Flow { params, ..*old(self) }),
    {
        self.params = params;
    }

    /// Register a successor of the flow itself, for when the flow stands
    /// as a node inside a larger graph; see
    /// [`crate::node::RegularNode::add_successor`].
    pub fn add_successor(&mut self, action: &str, target: usize) -> (replaced: bool)
        requires
            old(self).successors.wf(),
        ensures
            final(self).successors.wf(),
            final(self).successors@ == old(self).successors@.insert(
                normalize_label(action@),
                target,
            ),
            replaced == old(self).successors@.contains_key(normalize_label(action@)),
            final(self).logic == old(self).logic,
            final(self).params == old(self).params,
            final(self).nodes == old(self).nodes,
            final(self).start == old(self).start,
    {
        let label: String = if action.is_empty() {
            "default".to_owned()
        } else {
            action.to_owned()
        };
        self.successors.insert(label, target)
    }

    /// A flow never runs its own execute phase: calling it is a wiring
    /// or usage error, signalled immediately.
    pub fn exec(&self) -> (r: Result<Value, MinLLMError>)
        ensures
            r matches Err(e) && e == MinLLMError::FlowError,
    {
        Err(MinLLMError::FlowError)
    }

    /// Walk the graph from the start node with the given parameters in
    /// force: run the current node, resolve its returned action to a
    /// successor, and continue until no successor matches (not an
    /// error) or a node fails (the error propagates and the store keeps
    /// what completed nodes wrote).  The result is exactly what the
    /// traversal model computes at some fuel; only a cyclic graph that
    /// runs more nodes than [`max_fuel`] allows — never in practice — is
    /// cut off with a flow error instead.
    #[verifier::loop_isolation(false)]
    pub fn orchestrate(&self, store: &mut SharedStore, params: &ParamMap) -> (r: Result<
        (),
        MinLLMError,
    >)
        requires
            self.wf(),
            old(store).wf(),
            params.wf(),
        ensures
            final(store).wf(),
            match traverse_spec(self.nodes@, self.start as int, params@, old(store)@, max_fuel()) {
                Some((m, res)) => final(store)@ == m && r == res,
                None => r matches Err(e) && e == MinLLMError::FlowError,
            },
    {
        let ghost store0 = store@;
        let ghost nodes = self.nodes@;
        let mut cur: usize = self.start;
        let mut budget: usize = usize::MAX;
        let ghost mut steps: nat = 0;
        loop
            invariant
                self.wf(),
                params.wf(),
                store.wf(),
                (cur as int) < nodes.len(),
                nodes == self.nodes@,
                budget as nat + steps == max_fuel(),
                forall|f: nat|
                    traverse_spec(nodes, self.start as int, params@, store0, f + steps)
                        == #[trigger] traverse_spec(nodes, cur as int, params@, store@, f),
            decreases budget,
        {
            if budget == 0 {
                proof {
                    assert(traverse_spec(nodes, cur as int, params@, store@, 0) is None);
                    assert(traverse_spec(nodes, self.start as int, params@, store0, max_fuel())
                        is None);
                }
                return Err(MinLLMError::FlowError);
            }
            budget = budget - 1;
            let ghost pre = store@;
            let gn = &self.nodes[cur];
            let res = gn.run_with_params(store, params);
            match res {
                Ok(action) => {
                    proof {
                        assert(node_run_spec(
                            gn.regular().logic,
                            gn.is_batch(),
                            gn.regular().max_retries,
                            pre,
                            params@,
                        ) matches Ok((m, a)) && m == store@ && a == action@);
                    }
                    let nxt = get_next_node(gn.successors_ref(), &action);
                    match nxt {
                        NextNode::Found(t) => {
                            proof {
                                assert(resolve_spec(gn.regular().successors@, action@) == Some(t));
                                assert(edges_ok(nodes, gn.regular().successors@));
                                assert((t as int) < nodes.len());
                                assert forall|f: nat|
                                    traverse_spec(
                                        nodes,
                                        self.start as int,
                                        params@,
                                        store0,
                                        f + (steps + 1),
                                    ) == #[trigger] traverse_spec(
                                        nodes,
                                        t as int,
                                        params@,
                                        store@,
                                        f,
                                    ) by {
                                    assert(traverse_spec(
                                        nodes,
                                        cur as int,
                                        params@,
                                        pre,
                                        f + 1,
                                    ) == traverse_spec(nodes, t as int, params@, store@, f));
                                    assert(traverse_spec(
                                        nodes,
                                        self.start as int,
                                        params@,
                                        store0,
                                        (f + 1) + steps,
                                    ) == traverse_spec(nodes, cur as int, params@, pre, f + 1));
                                }
                                steps = steps + 1;
                            }
                            cur = t;
                        },
                        NextNode::Terminal(_) => {
                            proof {
                                assert(resolve_spec(gn.regular().successors@, action@) is None);
                                assert(traverse_spec(nodes, cur as int, params@, pre, 1) == Some(
                                    (store@, Ok::<(), MinLLMError>(())),
                                ));
                                assert(traverse_spec(
                                    nodes,
                                    self.start as int,
                                    params@,
                                    store0,
                                    1 + steps,
                                ) == Some((store@, Ok::<(), MinLLMError>(()))));
                                lemma_traverse_mono(
                                    nodes,
                                    self.start as int,
                                    params@,
                                    store0,
                                    1 + steps,
                                    max_fuel(),
                                );
                            }
                            return Ok(());
                        },
                    }
                },
                Err(e) => {
                    proof {
                        assert(store@ == pre);
                        assert(traverse_spec(nodes, cur as int, params@, pre, 1) == Some(
                            (store@, Err::<(), MinLLMError>(e)),
                        ));
                        assert(traverse_spec(nodes, self.start as int, params@, store0, 1 + steps)
                            == Some((store@, Err::<(), MinLLMError>(e))));
                        lemma_traverse_mono(
                            nodes,
                            self.start as int,
                            params@,
                            store0,
                            1 + steps,
                            max_fuel(),
                        );
                    }
                    return Err(e);
                },
            }
        }
    }

    /// Run the flow: its own prepare, the traversal from the start node
    /// with the flow's parameters, then its own post, whose action is
    /// what the flow reports to its caller.
    pub fn run(&self, store: &mut SharedStore) -> (r: Result<ActionName, MinLLMError>)
        requires
            self.wf(),
            old(store).wf(),
        ensures
            final(store).wf(),
            run_outcome_matches(
                flow_run_spec(
                    self.logic,
                    self.nodes@,
                    self.start as int,
                    self.params@,
                    old(store)@,
                    max_fuel(),
                ),
                final(store)@,
                r,
            ),
    {
        let prep = match self.logic.prep(store, &self.params) {
            Ok(p) => p,
            Err(e) => {
                return Err(e);
            },
        };
        let ghost mid0 = store@;
        let orch = self.orchestrate(store, &self.params);
        match orch {
            Ok(()) => {
                proof {
                    assert(orch == Ok::<(), MinLLMError>(())) by {
                        assert(orch is Ok);
                        assert(orch->Ok_0 == ());
                    }
                    assert(traverse_spec(
                        self.nodes@,
                        self.start as int,
                        self.params@,
                        mid0,
                        max_fuel(),
                    ) == Some((store@, Ok::<(), MinLLMError>(()))));
                }
            },
            Err(e) => {
                return Err(e);
            },
        }
        self.logic.post(store, &self.params, prep, Value::Null)
    }
}

/// One full traversal budget per batch element.
pub open spec fn full_fuels(n: nat) -> Seq<nat> {
    Seq::new(n, |i: int| max_fuel())
}

/// What running the subgraph once per parameter set computes: each run
/// traverses the whole graph from the start node with that set's
/// parameters merged over the flow's own (set keys win), against the
/// store the previous runs left behind — later runs see earlier runs'
/// writes.  The first failing run aborts the batch with its error.
/// `fuels` gives each run its traversal budget; `None` reports a run
/// that exceeded it.
pub open spec fn batch_traverse_spec<L: Node>(
    nodes: Seq<GraphNode<L>>,
    start: int,
    sets: Seq<Map<Seq<char>, ValModel>>,
    flow_params: Map<Seq<char>, ValModel>,
    store: Map<Seq<char>, ValModel>,
    fuels: Seq<nat>,
) -> Option<(Map<Seq<char>, ValModel>, Result<(), MinLLMError>)>
    decreases sets.len(),
{
    if sets.len() == 0 {
        Some((store, Ok(())))
    } else if fuels.len() == 0 {
        None
    } else {
        match traverse_spec(nodes, start, flow_params.union_prefer_right(sets[0]), store, fuels[0]) {
            None => None,
            Some((s2, Err(e))) => Some((s2, Err(e))),
            Some((s2, Ok(()))) => batch_traverse_spec(
                nodes,
                start,
                sets.skip(1),
                flow_params,
                s2,
                fuels.skip(1),
            ),
        }
    }
}

/// What one whole batch-flow run computes: the flow's own prepare yields
/// the parameter sets, the subgraph runs once per set (an empty sequence
/// is valid and performs zero runs), and the flow's own post still runs
/// afterwards, its action reported to the caller.
pub open spec fn batch_flow_run_spec<L: Node>(
    logic: L,
    nodes: Seq<GraphNode<L>>,
    start: int,
    params: Map<Seq<char>, ValModel>,
    store: Map<Seq<char>, ValModel>,
    fuels: Seq<nat>,
) -> Option<(Map<Seq<char>, ValModel>, Result<Seq<char>, MinLLMError>)> {
    match logic.prep_params_spec(store, params) {
        Err(e) => Some((store, Err(e))),
        Ok(sets) => match batch_traverse_spec(nodes, start, sets, params, store, fuels) {
            None => None,
            Some((s2, Err(e))) => Some((s2, Err(e))),
            Some((s2, Ok(()))) => match logic.post_spec(s2, params, ValModel::Null, ValModel::Null) {
                Err(e) => Some((s2, Err(e))),
                Ok((s3, a)) => Some((s3, Ok(a))),
            },
        },
    }
}

/// The traversal budgets a batch flow run grants: one full budget per
/// parameter set its prepare yields.
pub open spec fn batch_full_fuels<L: Node>(
    logic: L,
    params: Map<Seq<char>, ValModel>,
    store: Map<Seq<char>, ValModel>,
) -> Seq<nat> {
    match logic.prep_params_spec(store, params) {
        Ok(sets) => full_fuels(sets.len()),
        Err(_) => Seq::empty(),
    }
}

/// A flow that re-runs its whole subgraph once per parameter set its
/// prepare phase yields, all runs sharing one store.
pub struct BatchFlow<L: Node> {
    pub flow: Flow<L>,
}

impl<L: Node> BatchFlow<L> {
    /// See [`Flow::wf`].
    pub open spec fn wf(&self) -> bool {
        self.flow.wf()
    }

    /// A batch flow whose graph holds only the given start node.
    pub fn new(logic: L, start_node: GraphNode<L>) -> (r: Self)
        requires
            start_node.wf(),
            start_node.regular().successors.kvs().len() == 0,
        ensures
            r.wf(),
            r.flow.logic == logic,
            r.flow.params@ == Map::<Seq<char>, ValModel>::empty(),
            r.flow.nodes@.len() == 1,
            r.flow.nodes@[0] == start_node,
            r.flow.start == 0,
    {
        BatchFlow { flow: Flow::new(logic, start_node) }
    }

    /// Add a node to the graph, unwired; returns its index.
    pub fn add_node(&mut self, node: GraphNode<L>) -> (idx: usize)
        requires
            old(self).wf(),
            node.wf(),
            node.regular().successors.kvs().len() == 0,
        ensures
            final(self).wf(),
            idx == old(self).flow.nodes@.len(),
            final(self).flow.nodes@ == old(self).flow.nodes@.push(node),
            final(self).flow.logic == old(self).flow.logic,
            final(self).flow.params == old(self).flow.params,
            final(self).flow.start == old(self).flow.start,
    {
        self.flow.add_node(node)
    }

    /// Wire the edge labelled `action` from node `from` to node `to`;
    /// see [`Flow::connect`].
    pub fn connect(&mut self, from: usize, action: &str, to: usize) -> (r: Result<
        bool,
        MinLLMError,
    >)
        requires
            old(self).wf(),
        ensures
            final(self).wf(),
            from < old(self).flow.nodes@.len() && to < old(self).flow.nodes@.len() ==> {
                &&& r matches Ok(replaced) && replaced == old(self).flow.nodes@[
                    from as int
                ].regular().successors@.contains_key(normalize_label(action@))
                &&& final(self).flow.nodes@[from as int].regular().successors@ == old(
                    self,
                ).flow.nodes@[from as int].regular().successors@.insert(
                    normalize_label(action@),
                    to,
                )
                &&& final(self).flow.logic == old(self).flow.logic
                &&& final(self).flow.params == old(self).flow.params
                &&& final(self).flow.start == old(self).flow.start
            },
            !(from < old(self).flow.nodes@.len() && to < old(self).flow.nodes@.len()) ==> (
            r matches Err(e) && e == MinLLMError::FlowError && *final(self) == *old(self)),
    {
        self.flow.connect(from, action, to)
    }

    /// Make node `idx` the graph's entry point; see [`Flow::set_start`].
    pub fn set_start(&mut self, idx: usize) -> (r: Result<(), MinLLMError>)
        requires
            old(self).wf(),
        ensures
            final(self).wf(),
            idx < old(self).flow.nodes@.len() ==> (r matches Ok(()) && final(self).flow == (Flow {
                start: idx,
                ..old(self).flow
            })),
            idx >= old(self).flow.nodes@.len() ==> (r matches Err(e) && e
                == MinLLMError::FlowError && *final(self) == *old(self)),
    {
        self.flow.set_start(idx)
    }

    /// Replace the flow's own parameters.
    pub fn set_params(&mut self, params: ParamMap)
        ensures
            final(self).flow == (Flow { params, ..old(self).flow }),
    {
        self.flow.set_params(params);
    }

    /// A batch flow never runs its own execute phase: calling it is a
    /// wiring or usage error, signalled immediately.
    pub fn exec(&self) -> (r: Result<Value, MinLLMError>)
        ensures
            r matches Err(e) && e == MinLLMError::FlowError,
    {
        Err(MinLLMError::FlowError)
    }

    /// Run the batch flow: its prepare yields the parameter sets; the
    /// subgraph runs once per set, each set's parameters merged over the
    /// flow's own (set keys win), all runs sharing this store in order;
    /// then the flow's own post runs, and its action is reported.  An
    /// empty sequence of sets performs zero runs and still posts.
    #[verifier::loop_isolation(false)]
    pub fn run(&self, store: &mut SharedStore) -> (r: Result<ActionName, MinLLMError>)
        requires
            self.wf(),
            old(store).wf(),
        ensures
            final(store).wf(),
            run_outcome_matches(
                batch_flow_run_spec(
                    self.flow.logic,
                    self.flow.nodes@,
                    self.flow.start as int,
                    self.flow.params@,
                    old(store)@,
                    batch_full_fuels(self.flow.logic, self.flow.params@, old(store)@),
                ),
                final(store)@,
                r,
            ),
    {
        let ghost store0 = store@;
        let ghost nodes = self.flow.nodes@;
        let sets = match self.flow.logic.prep_params(store, &self.flow.params) {
            Ok(v) => v,
            Err(e) => {
                return Err(e);
            },
        };
        let ghost msets = match self.flow.logic.prep_params_spec(store0, self.flow.params@) {
            Ok(s) => s,
            Err(_) => Seq::empty(),
        };
        let n = sets.len();
        let mut i: usize = 0;
        proof {
            assert(msets.skip(0) =~= msets);
            assert(full_fuels(msets.len()).skip(0) =~= full_fuels((n - 0) as nat));
        }
        while i < n
            invariant
                i <= n,
                store.wf(),
                n == msets.len(),
                sets@.len() == n,
                forall|j: int| 0 <= j < n ==> (#[trigger] sets@[j])@ == msets[j] && sets@[j].wf(),
                batch_traverse_spec(
                    nodes,
                    self.flow.start as int,
                    msets,
                    self.flow.params@,
                    store0,
                    full_fuels(msets.len()),
                ) == batch_traverse_spec(
                    nodes,
                    self.flow.start as int,
                    msets.skip(i as int),
                    self.flow.params@,
                    store@,
                    full_fuels((n - i) as nat),
                ),
            decreases n - i,
        {
            let merged = merge_params(&sets[i], &self.flow.params);
            let ghost pre = store@;
            proof {
                assert(merged@ == self.flow.params@.union_prefer_right(msets[i as int]));
                assert(msets.skip(i as int)[0] == msets[i as int]);
                assert(full_fuels((n - i) as nat)[0] == max_fuel());
            }
            let orch = self.flow.orchestrate(store, &merged);
            match orch {
                Ok(()) => {
                    proof {
                        assert(orch == Ok::<(), MinLLMError>(())) by {
                            assert(orch is Ok);
                            assert(orch->Ok_0 == ());
                        }
                        assert(traverse_spec(nodes, self.flow.start as int, merged@, pre, max_fuel())
                            == Some((store@, Ok::<(), MinLLMError>(()))));
                        assert(msets.skip(i as int).skip(1) =~= msets.skip(i as int + 1));
                        assert(full_fuels((n - i) as nat).skip(1) =~= full_fuels(
                            (n - (i + 1)) as nat,
                        ));
                        assert(batch_traverse_spec(
                            nodes,
                            self.flow.start as int,
                            msets.skip(i as int),
                            self.flow.params@,
                            pre,
                            full_fuels((n - i) as nat),
                        ) == batch_traverse_spec(
                            nodes,
                            self.flow.start as int,
                            msets.skip(i as int + 1),
                            self.flow.params@,
                            store@,
                            full_fuels((n - (i + 1)) as nat),
                        ));
                    }
                    i += 1;
                },
                Err(e) => {
                    proof {
                        match traverse_spec(
                            nodes,
                            self.flow.start as int,
                            merged@,
                            pre,
                            max_fuel(),
                        ) {
                            Some((m, res)) => {
                                assert(store@ == m && res == Err::<(), MinLLMError>(e));
                                assert(batch_traverse_spec(
                                    nodes,
                                    self.flow.start as int,
                                    msets.skip(i as int),
                                    self.flow.params@,
                                    pre,
                                    full_fuels((n - i) as nat),
                                ) == Some((store@, Err::<(), MinLLMError>(e))));
                            },
                            None => {
                                assert(batch_traverse_spec(
                                    nodes,
                                    self.flow.start as int,
                                    msets.skip(i as int),
                                    self.flow.params@,
                                    pre,
                                    full_fuels((n - i) as nat),
                                ) is None);
                            },
                        }
                    }
                    return Err(e);
                },
            }
        }
        proof {
            assert(msets.skip(n as int) =~= Seq::<Map<Seq<char>, ValModel>>::empty());
            assert(batch_traverse_spec(
                nodes,
                self.flow.start as int,
                msets,
                self.flow.params@,
                store0,
                full_fuels(msets.len()),
            ) == Some((store@, Ok::<(), MinLLMError>(()))));
        }
        let nul = Value::Null;
        self.flow.logic.post(store, &self.flow.params, nul, Value::Null)
    }
}

} // verus!