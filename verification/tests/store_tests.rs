use minllm::{clone_box, merge_params, params_from_pairs, SharedStore, Value};

#[test]
fn store_set_get_round_trip() {
    let mut store = SharedStore::new();
    assert_eq!(store.get("alpha"), None);
    store.set("alpha", Value::Int(41));
    assert_eq!(store.get("alpha"), Some(Value::Int(41)));
    store.set("alpha", Value::Str("later".to_owned()));
    assert_eq!(store.get("alpha"), Some(Value::Str("later".to_owned())));
}

#[test]
fn store_contains_and_remove() {
    let mut store = SharedStore::new();
    store.set("k", Value::Bool(true));
    assert!(store.contains_key("k"));
    assert!(!store.contains_key("missing"));
    assert!(store.remove("k"));
    assert!(!store.remove("k"));
    assert!(!store.contains_key("k"));
    assert_eq!(store.get("k"), None);
}

#[test]
fn store_keys_lists_every_key() {
    let mut store = SharedStore::new();
    store.set("one", Value::Int(1));
    store.set("two", Value::Int(2));
    let mut keys = store.keys();
    keys.sort();
    assert_eq!(keys, vec!["one".to_owned(), "two".to_owned()]);
}

#[test]
fn store_clone_is_a_deep_snapshot() {
    let mut store = SharedStore::new();
    store.set("k", Value::List(vec![Value::Int(1), Value::Str("x".to_owned())]));
    let snapshot = store.clone();
    store.set("k", Value::Null);
    store.set("extra", Value::Bool(false));
    assert_eq!(
        snapshot.get("k"),
        Some(Value::List(vec![Value::Int(1), Value::Str("x".to_owned())]))
    );
    assert_eq!(snapshot.get("extra"), None);
}

#[test]
fn clone_box_extracts_matching_type() {
    let v = Value::Int(-7);
    let got: Option<i64> = clone_box(&v);
    assert_eq!(got, Some(-7));
    let s = Value::Str("hello".to_owned());
    let got: Option<String> = clone_box(&s);
    assert_eq!(got, Some("hello".to_owned()));
    let b = Value::Bool(true);
    let got: Option<bool> = clone_box(&b);
    assert_eq!(got, Some(true));
}

#[test]
fn get_typed_extracts_or_rejects() {
    let mut store = SharedStore::new();
    store.set("n", Value::Int(12));
    let n: Option<i64> = store.get_typed("n");
    assert_eq!(n, Some(12));
    let s: Option<String> = store.get_typed("n");
    assert_eq!(s, None);
    let missing: Option<i64> = store.get_typed("missing");
    assert_eq!(missing, None);
}

#[test]
fn clone_box_rejects_mismatched_type() {
    let v = Value::Str("ten".to_owned());
    let got: Option<i64> = clone_box(&v);
    assert_eq!(got, None);
    let got: Option<bool> = clone_box(&Value::Null);
    assert_eq!(got, None);
}

#[test]
fn merge_params_item_keys_win_and_flow_fills_gaps() {
    let item = params_from_pairs(&vec![("key".to_owned(), Value::Str("item".to_owned()))]);
    let base = params_from_pairs(&vec![
        ("key".to_owned(), Value::Str("flow".to_owned())),
        ("shared".to_owned(), Value::Int(1)),
    ]);
    let merged = merge_params(&item, &base);
    assert_eq!(
        merged.get(&"key".to_owned()),
        Some(&Value::Str("item".to_owned()))
    );
    assert_eq!(merged.get(&"shared".to_owned()), Some(&Value::Int(1)));
    assert_eq!(merged.get(&"absent".to_owned()), None);
}

#[test]
fn params_from_pairs_later_pairs_override() {
    let p = params_from_pairs(&vec![
        ("k".to_owned(), Value::Int(1)),
        ("k".to_owned(), Value::Int(2)),
    ]);
    assert_eq!(p.get(&"k".to_owned()), Some(&Value::Int(2)));
    assert_eq!(p.len(), 1);
}
