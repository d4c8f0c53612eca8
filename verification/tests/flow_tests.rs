use minllm::table::Table;
use minllm::{
    get_next_node, ActionName, ExecScript, FallbackScript, Flow, GraphNode, MinLLMError, NextNode,
    PostScript, PrepScript, RegularNode, ScriptedNode, SharedStore, Value,
};

fn flow_logic_of(
    prep_script: PrepScript,
    exec_script: ExecScript,
    post_script: PostScript,
) -> ScriptedNode {
    ScriptedNode {
        prep_script,
        exec_script,
        fallback_script: FallbackScript::Reraise,
        post_script,
        param_seeds: Vec::new(),
    }
}

fn graph_node_of(logic: ScriptedNode) -> GraphNode<ScriptedNode> {
    GraphNode::Regular(RegularNode::new(logic, 1, 0))
}

#[test]
fn end_to_end_two_node_flow_stores_double_and_reports_default() {
    // Node X: prepare yields 5, execute doubles it, post stores the
    // result under "y" and returns "done"; "done" leads to terminal Y.
    let x = flow_logic_of(
        PrepScript::Constant(Value::Int(5)),
        ExecScript::DoubleInt,
        PostScript::StoreExec { key: "y".to_owned(), action: "done".to_owned() },
    );
    let y = ScriptedNode::unit();
    let mut flow = Flow::new(ScriptedNode::unit(), graph_node_of(x));
    let yi = flow.add_node(graph_node_of(y));
    flow.connect(0, "done", yi).unwrap();
    let mut store = SharedStore::new();
    let action = flow.run(&mut store).unwrap();
    assert_eq!(store.get("y"), Some(Value::Int(10)));
    assert_eq!(action.0, "default");
    assert!(action.is_default());
}

#[test]
fn unmatched_action_follows_default_edge() {
    // the first node returns "go" but only a "default" successor exists
    let first = flow_logic_of(
        PrepScript::Unit,
        ExecScript::Echo,
        PostScript::Action("go".to_owned()),
    );
    let marker = flow_logic_of(
        PrepScript::Unit,
        ExecScript::Constant(Value::Bool(true)),
        PostScript::StoreExec { key: "reached".to_owned(), action: "".to_owned() },
    );
    let mut flow = Flow::new(ScriptedNode::unit(), graph_node_of(first));
    let mi = flow.add_node(graph_node_of(marker));
    flow.connect(0, "default", mi).unwrap();
    let mut store = SharedStore::new();
    let result = flow.run(&mut store);
    assert!(result.is_ok());
    assert_eq!(store.get("reached"), Some(Value::Bool(true)));
}

#[test]
fn unmatched_action_with_no_default_ends_flow_without_error() {
    let first = flow_logic_of(
        PrepScript::Unit,
        ExecScript::Echo,
        PostScript::Action("go".to_owned()),
    );
    let other = ScriptedNode::unit();
    let mut flow = Flow::new(ScriptedNode::unit(), graph_node_of(first));
    let oi = flow.add_node(graph_node_of(other));
    // a successor exists, but under an unrelated label
    flow.connect(0, "elsewhere", oi).unwrap();
    let mut store = SharedStore::new();
    let result = flow.run(&mut store);
    assert!(result.is_ok());
}

#[test]
fn get_next_node_resolution_rules() {
    let mut succ: Table<usize> = Table::new();
    succ.insert("go".to_owned(), 1);
    succ.insert("default".to_owned(), 2);
    assert_eq!(get_next_node(&succ, &ActionName::new("go")), NextNode::Found(1));
    assert_eq!(get_next_node(&succ, &ActionName::new("other")), NextNode::Found(2));
    // an empty action means the default label
    assert_eq!(get_next_node(&succ, &ActionName::new("")), NextNode::Found(2));

    let mut only_go: Table<usize> = Table::new();
    only_go.insert("go".to_owned(), 1);
    // unmatched with successors registered: terminal, with the warning
    assert_eq!(get_next_node(&only_go, &ActionName::new("stop")), NextNode::Terminal(true));
    // no successors at all: terminal without the warning
    let empty: Table<usize> = Table::new();
    assert_eq!(get_next_node(&empty, &ActionName::new("stop")), NextNode::Terminal(false));
}

#[test]
fn node_failure_propagates_and_keeps_earlier_writes() {
    let writer = flow_logic_of(
        PrepScript::Unit,
        ExecScript::Constant(Value::Int(1)),
        PostScript::StoreExec { key: "first".to_owned(), action: "next".to_owned() },
    );
    let failing = flow_logic_of(
        PrepScript::Unit,
        ExecScript::Echo,
        PostScript::Fail(MinLLMError::StoreError),
    );
    let mut flow = Flow::new(ScriptedNode::unit(), graph_node_of(writer));
    let fi = flow.add_node(graph_node_of(failing));
    flow.connect(0, "next", fi).unwrap();
    let mut store = SharedStore::new();
    let result = flow.run(&mut store);
    assert_eq!(result.err(), Some(MinLLMError::StoreError));
    assert_eq!(store.get("first"), Some(Value::Int(1)));
}

#[test]
fn flow_parameters_reach_every_node() {
    // the node writes under the key its parameters name; the flow's own
    // parameters are what the node sees
    let writer = flow_logic_of(
        PrepScript::Unit,
        ExecScript::Constant(Value::Int(3)),
        PostScript::StoreExecAtParam { param: "key".to_owned(), action: "".to_owned() },
    );
    let mut flow = Flow::new(ScriptedNode::unit(), graph_node_of(writer));
    flow.set_params(minllm::params_from_pairs(&vec![(
        "key".to_owned(),
        Value::Str("chosen".to_owned()),
    )]));
    let mut store = SharedStore::new();
    let result = flow.run(&mut store);
    assert!(result.is_ok());
    assert_eq!(store.get("chosen"), Some(Value::Int(3)));
}

#[test]
fn connect_rejects_unknown_indices() {
    let mut flow = Flow::new(ScriptedNode::unit(), graph_node_of(ScriptedNode::unit()));
    assert_eq!(flow.connect(0, "x", 5).err(), Some(MinLLMError::FlowError));
    assert_eq!(flow.connect(7, "x", 0).err(), Some(MinLLMError::FlowError));
    assert_eq!(flow.set_start(3).err(), Some(MinLLMError::FlowError));
    assert!(flow.set_start(0).is_ok());
}

#[test]
fn flow_exec_directly_is_a_usage_error() {
    let flow = Flow::new(ScriptedNode::unit(), graph_node_of(ScriptedNode::unit()));
    assert_eq!(flow.exec().err(), Some(MinLLMError::FlowError));
}

#[test]
fn flow_retries_inside_traversal() {
    // a node that fails twice and succeeds on the third attempt, inside
    // a flow traversal
    let flaky = ScriptedNode {
        prep_script: PrepScript::Unit,
        exec_script: ExecScript::Outcomes(vec![
            Err(MinLLMError::NodeError),
            Err(MinLLMError::NodeError),
            Ok(Value::Str("ok".to_owned())),
        ]),
        fallback_script: FallbackScript::Reraise,
        post_script: PostScript::StoreExec { key: "r".to_owned(), action: "".to_owned() },
        param_seeds: Vec::new(),
    };
    let mut flow = Flow::new(
        ScriptedNode::unit(),
        GraphNode::Regular(RegularNode::new(flaky, 3, 0)),
    );
    flow.set_start(0).unwrap();
    let mut store = SharedStore::new();
    let result = flow.run(&mut store);
    assert!(result.is_ok());
    assert_eq!(store.get("r"), Some(Value::Str("ok".to_owned())));
}
