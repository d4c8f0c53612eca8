use minllm::{
    ActionName, BaseNode, BatchNode, ExecScript, FallbackScript, MinLLMError, PostScript,
    PrepScript, RegularNode, ScriptedNode, SharedStore, Value,
};

fn node_logic_of(
    prep_script: PrepScript,
    exec_script: ExecScript,
    fallback_script: FallbackScript,
    post_script: PostScript,
) -> ScriptedNode {
    ScriptedNode { prep_script, exec_script, fallback_script, post_script, param_seeds: Vec::new() }
}

#[test]
fn permanent_failure_attempts_whole_budget_then_fallback() {
    let logic = node_logic_of(
        PrepScript::Unit,
        ExecScript::Fail(MinLLMError::NodeError),
        FallbackScript::Reraise,
        PostScript::Action("default".to_owned()),
    );
    let node = RegularNode::new(logic, 4, 0);
    let mut store = SharedStore::new();
    let (result, report, warned) = node.run_report(&mut store);
    assert_eq!(result.err(), Some(MinLLMError::NodeError));
    assert_eq!(report.attempts, 4);
    assert!(report.fallback_used);
    assert_eq!(report.waits, 0);
    assert!(!warned);
}

#[test]
fn waits_separate_attempts_but_never_follow_the_last() {
    let logic = node_logic_of(
        PrepScript::Unit,
        ExecScript::Fail(MinLLMError::NodeError),
        FallbackScript::Reraise,
        PostScript::Action("default".to_owned()),
    );
    let node = RegularNode::new(logic, 3, 5);
    let mut store = SharedStore::new();
    let (result, report, _) = node.run_report(&mut store);
    assert!(result.is_err());
    assert_eq!(report.attempts, 3);
    assert_eq!(report.waits, 2);
}

#[test]
fn success_on_third_attempt_returns_result_without_fallback() {
    let logic = node_logic_of(
        PrepScript::Unit,
        ExecScript::Outcomes(vec![
            Err(MinLLMError::NodeError),
            Err(MinLLMError::NodeError),
            Ok(Value::Int(7)),
        ]),
        FallbackScript::Reraise,
        PostScript::StoreExec { key: "out".to_owned(), action: "default".to_owned() },
    );
    let node = RegularNode::new(logic, 3, 0);
    let mut store = SharedStore::new();
    let (result, report, _) = node.run_report(&mut store);
    assert!(result.is_ok());
    assert_eq!(report.attempts, 3);
    assert!(!report.fallback_used);
    // wait is zero, so no sleep separates the attempts
    assert_eq!(report.waits, 0);
    assert_eq!(store.get("out"), Some(Value::Int(7)));
}

#[test]
fn fallback_can_recover_with_a_value() {
    let logic = node_logic_of(
        PrepScript::Unit,
        ExecScript::Fail(MinLLMError::NodeError),
        FallbackScript::Recover(Value::Str("saved".to_owned())),
        PostScript::StoreExec { key: "out".to_owned(), action: "default".to_owned() },
    );
    let node = RegularNode::new(logic, 2, 0);
    let mut store = SharedStore::new();
    let (result, report, _) = node.run_report(&mut store);
    assert!(result.is_ok());
    assert!(report.fallback_used);
    assert_eq!(report.attempts, 2);
    assert_eq!(store.get("out"), Some(Value::Str("saved".to_owned())));
}

#[test]
fn standalone_run_warns_when_successors_exist() {
    let logic = node_logic_of(
        PrepScript::Unit,
        ExecScript::Echo,
        FallbackScript::Reraise,
        PostScript::Action("default".to_owned()),
    );
    let mut node = RegularNode::new(logic, 1, 0);
    node.add_successor("next", 0);
    let mut store = SharedStore::new();
    let (result, _, warned) = node.run_report(&mut store);
    assert!(result.is_ok());
    assert!(warned);
}

#[test]
fn second_successor_for_same_action_overwrites_with_warning() {
    let logic = node_logic_of(
        PrepScript::Unit,
        ExecScript::Echo,
        FallbackScript::Reraise,
        PostScript::Action("default".to_owned()),
    );
    let mut node = RegularNode::new(logic, 1, 0);
    assert!(!node.add_successor("go", 1));
    assert!(node.add_successor("go", 2));
    // an empty label means the default label
    assert!(!node.add_successor("", 3));
    assert!(node.add_successor("default", 4));
}

#[test]
fn prep_failure_is_not_retried() {
    let logic = node_logic_of(
        PrepScript::Fail(MinLLMError::StoreError),
        ExecScript::Echo,
        FallbackScript::Recover(Value::Null),
        PostScript::Action("default".to_owned()),
    );
    let node = RegularNode::new(logic, 5, 0);
    let mut store = SharedStore::new();
    let (result, report, _) = node.run_report(&mut store);
    assert_eq!(result.err(), Some(MinLLMError::StoreError));
    assert_eq!(report.attempts, 0);
}

#[test]
fn post_failure_leaves_store_unchanged() {
    let logic = node_logic_of(
        PrepScript::Unit,
        ExecScript::Echo,
        FallbackScript::Reraise,
        PostScript::Fail(MinLLMError::Unknown),
    );
    let node = RegularNode::new(logic, 1, 0);
    let mut store = SharedStore::new();
    store.set("kept", Value::Int(9));
    let (result, _, _) = node.run_report(&mut store);
    assert_eq!(result.err(), Some(MinLLMError::Unknown));
    assert_eq!(store.get("kept"), Some(Value::Int(9)));
    assert_eq!(store.keys().len(), 1);
}

#[test]
fn batch_node_processes_items_in_order() {
    let logic = node_logic_of(
        PrepScript::Constant(Value::List(vec![Value::Int(1), Value::Int(2), Value::Int(3)])),
        ExecScript::DoubleInt,
        FallbackScript::Reraise,
        PostScript::StoreExec { key: "out".to_owned(), action: "default".to_owned() },
    );
    let node = BatchNode::new(logic, 1, 0);
    let mut store = SharedStore::new();
    let (result, reports, _) = node.run_report(&mut store);
    assert!(result.is_ok());
    assert_eq!(reports.len(), 3);
    assert_eq!(
        store.get("out"),
        Some(Value::List(vec![Value::Int(2), Value::Int(4), Value::Int(6)]))
    );
}

#[test]
fn batch_node_empty_input_yields_empty_list() {
    let logic = node_logic_of(
        PrepScript::Unit,
        ExecScript::DoubleInt,
        FallbackScript::Reraise,
        PostScript::StoreExec { key: "out".to_owned(), action: "default".to_owned() },
    );
    let node = BatchNode::new(logic, 1, 0);
    let mut store = SharedStore::new();
    let (result, reports, _) = node.run_report(&mut store);
    assert!(result.is_ok());
    assert_eq!(reports.len(), 0);
    assert_eq!(store.get("out"), Some(Value::List(Vec::new())));
}

#[test]
fn batch_aborts_after_failing_item_with_no_partial_result() {
    // items [a, b, c] where b permanently fails: the batch stops after
    // b's retries are exhausted and a's result is never surfaced
    let logic = node_logic_of(
        PrepScript::Constant(Value::List(vec![
            Value::Int(1),
            Value::Str("boom".to_owned()),
            Value::Int(3),
        ])),
        ExecScript::DoubleInt,
        FallbackScript::Reraise,
        PostScript::StoreExec { key: "out".to_owned(), action: "default".to_owned() },
    );
    let node = BatchNode::new(logic, 2, 0);
    let mut store = SharedStore::new();
    let (result, reports, _) = node.run_report(&mut store);
    assert_eq!(result.err(), Some(MinLLMError::NodeError));
    // item a processed, item b exhausted its own retry budget, item c never ran
    assert_eq!(reports.len(), 2);
    assert_eq!(reports[0].attempts, 1);
    assert!(!reports[0].fallback_used);
    assert_eq!(reports[1].attempts, 2);
    assert!(reports[1].fallback_used);
    // post never ran: no partial list is committed
    assert_eq!(store.get("out"), None);
}

#[test]
fn batch_node_rejects_non_list_input() {
    let logic = node_logic_of(
        PrepScript::Constant(Value::Int(5)),
        ExecScript::Echo,
        FallbackScript::Reraise,
        PostScript::Action("default".to_owned()),
    );
    let node = BatchNode::new(logic, 1, 0);
    let mut store = SharedStore::new();
    let (result, reports, _) = node.run_report(&mut store);
    assert_eq!(result.err(), Some(MinLLMError::NodeError));
    assert_eq!(reports.len(), 0);
}

#[test]
fn double_int_overflow_is_a_node_error() {
    let logic = node_logic_of(
        PrepScript::Constant(Value::Int(i64::MAX)),
        ExecScript::DoubleInt,
        FallbackScript::Reraise,
        PostScript::Action("default".to_owned()),
    );
    let node = RegularNode::new(logic, 1, 0);
    let mut store = SharedStore::new();
    let (result, _, _) = node.run_report(&mut store);
    assert_eq!(result.err(), Some(MinLLMError::NodeError));
}

#[test]
fn base_node_runs_its_do_nothing_defaults() {
    let node = RegularNode::new(BaseNode::new(), 1, 0);
    let mut store = SharedStore::new();
    let (result, report, warned) = node.run_report(&mut store);
    let action = result.unwrap();
    assert!(action.is_default());
    assert_eq!(report.attempts, 1);
    assert!(!report.fallback_used);
    assert!(!warned);
    assert_eq!(store.keys().len(), 0);
}

#[test]
fn action_labels_normalize_empty_to_default() {
    assert!(ActionName::default().is_default());
    assert!(ActionName::new("").is_default());
    assert!(ActionName::new("default").is_default());
    assert!(!ActionName::new("go").is_default());
    assert_eq!(ActionName::new("go").clone().0, "go");
}

#[test]
fn error_messages_name_the_kind() {
    assert_eq!(MinLLMError::FlowError.message(), "flow execution error");
    assert_eq!(MinLLMError::NodeError.message(), "node execution error");
    assert_eq!(MinLLMError::StoreError.message(), "store access error");
    assert_eq!(MinLLMError::Unknown.message(), "unknown error");
}
