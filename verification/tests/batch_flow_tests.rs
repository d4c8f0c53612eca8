use minllm::{
    BatchFlow, ExecScript, FallbackScript, GraphNode, MinLLMError, PostScript, PrepScript,
    RegularNode, ScriptedNode, SharedStore, Value,
};

fn batch_graph_node_of(logic: ScriptedNode) -> GraphNode<ScriptedNode> {
    GraphNode::Regular(RegularNode::new(logic, 1, 0))
}

fn key_writer() -> ScriptedNode {
    // writes the execute result under the key named by parameter "key"
    ScriptedNode {
        prep_script: PrepScript::Unit,
        exec_script: ExecScript::Constant(Value::Int(1)),
        fallback_script: FallbackScript::Reraise,
        post_script: PostScript::StoreExecAtParam {
            param: "key".to_owned(),
            action: "".to_owned(),
        },
        param_seeds: Vec::new(),
    }
}

fn seeds_of(keys: &[&str]) -> Vec<Vec<(String, Value)>> {
    keys.iter()
        .map(|k| vec![("key".to_owned(), Value::Str((*k).to_owned()))])
        .collect()
}

#[test]
fn empty_parameter_sets_run_nothing_but_still_post() {
    let flow_logic = ScriptedNode {
        prep_script: PrepScript::Unit,
        exec_script: ExecScript::Echo,
        fallback_script: FallbackScript::Reraise,
        post_script: PostScript::StoreExec {
            key: "posted".to_owned(),
            action: "done".to_owned(),
        },
        param_seeds: Vec::new(),
    };
    let flow = BatchFlow::new(flow_logic, batch_graph_node_of(key_writer()));
    let mut store = SharedStore::new();
    let action = flow.run(&mut store).unwrap();
    // zero subgraph runs: no "key" parameter ever wrote anything
    assert_eq!(store.keys().len(), 1);
    // the flow's own post phase still ran
    assert!(store.contains_key("posted"));
    assert_eq!(action.0, "done");
}

#[test]
fn each_parameter_set_runs_the_subgraph_once() {
    let mut flow_logic = ScriptedNode::unit();
    flow_logic.param_seeds = seeds_of(&["a", "b", "c"]);
    let flow = BatchFlow::new(flow_logic, batch_graph_node_of(key_writer()));
    let mut store = SharedStore::new();
    let result = flow.run(&mut store);
    assert!(result.is_ok());
    // every set wrote its own distinct key
    assert!(store.contains_key("a"));
    assert!(store.contains_key("b"));
    assert!(store.contains_key("c"));
    assert_eq!(store.keys().len(), 3);
}

#[test]
fn set_keys_win_over_flow_keys_and_flow_fills_gaps() {
    let mut flow_logic = ScriptedNode::unit();
    // first set overrides "key"; second leaves it to the flow
    flow_logic.param_seeds = vec![
        vec![("key".to_owned(), Value::Str("from_item".to_owned()))],
        vec![],
    ];
    let mut flow = BatchFlow::new(flow_logic, batch_graph_node_of(key_writer()));
    flow.set_params(minllm::params_from_pairs(&vec![(
        "key".to_owned(),
        Value::Str("from_flow".to_owned()),
    )]));
    let mut store = SharedStore::new();
    let result = flow.run(&mut store);
    assert!(result.is_ok());
    assert!(store.contains_key("from_item"));
    assert!(store.contains_key("from_flow"));
}

#[test]
fn later_runs_see_earlier_runs_writes() {
    // the node copies what the previous run left under "chain" into its
    // own key, demonstrating cross-run store visibility
    let chain_logic = ScriptedNode {
        prep_script: PrepScript::FromStore("chain".to_owned()),
        exec_script: ExecScript::Echo,
        fallback_script: FallbackScript::Reraise,
        post_script: PostScript::StoreExecAtParam {
            param: "key".to_owned(),
            action: "".to_owned(),
        },
        param_seeds: Vec::new(),
    };
    let mut flow_logic = ScriptedNode::unit();
    flow_logic.param_seeds = vec![
        vec![("key".to_owned(), Value::Str("chain".to_owned()))],
        vec![("key".to_owned(), Value::Str("copy".to_owned()))],
    ];
    let flow = BatchFlow::new(flow_logic, batch_graph_node_of(chain_logic));
    let mut store = SharedStore::new();
    store.set("chain", Value::Int(11));
    let result = flow.run(&mut store);
    assert!(result.is_ok());
    // the second run read what the first run rewrote under "chain"
    assert_eq!(store.get("copy"), Some(Value::Int(11)));
}

#[test]
fn failing_run_aborts_the_batch_and_keeps_earlier_writes() {
    // the second set names no string key, so its run fails; the first
    // set's write stays, the flow's own post never runs
    let mut flow_logic = ScriptedNode {
        prep_script: PrepScript::Unit,
        exec_script: ExecScript::Echo,
        fallback_script: FallbackScript::Reraise,
        post_script: PostScript::StoreExec {
            key: "posted".to_owned(),
            action: "".to_owned(),
        },
        param_seeds: Vec::new(),
    };
    flow_logic.param_seeds = vec![
        vec![("key".to_owned(), Value::Str("first".to_owned()))],
        vec![("key".to_owned(), Value::Int(3))],
        vec![("key".to_owned(), Value::Str("never".to_owned()))],
    ];
    let flow = BatchFlow::new(flow_logic, batch_graph_node_of(key_writer()));
    let mut store = SharedStore::new();
    let result = flow.run(&mut store);
    assert_eq!(result.err(), Some(MinLLMError::StoreError));
    assert!(store.contains_key("first"));
    assert!(!store.contains_key("never"));
    assert!(!store.contains_key("posted"));
}

#[test]
fn batch_flow_exec_directly_is_a_usage_error() {
    let flow = BatchFlow::new(ScriptedNode::unit(), batch_graph_node_of(ScriptedNode::unit()));
    assert_eq!(flow.exec().err(), Some(MinLLMError::FlowError));
}
