//! The dynamically typed values that nodes exchange through the store.

use vstd::prelude::*;

verus! {

broadcast use vstd::seq::group_seq_axioms, vstd::std_specs::vec::group_vec_axioms;

/// A dynamically typed value: what node parameters hold, what the store
/// maps keys to, and what the three lifecycle phases pass to each other.
#[derive(Debug, PartialEq)]
pub enum Value {
    Null,
    Bool(bool),
    Int(i64),
    Str(String),
    List(Vec<Value>),
}

/// The mathematical model of a [`Value`]: strings become character
/// sequences and lists become sequences of models.
#[verifier::ext_equal]
pub enum ValModel {
    Null,
    Bool(bool),
    Int(int),
    Str(Seq<char>),
    List(Seq<ValModel>),
}

/// The models of a sequence of values, element by element.
pub open spec fn models_of(s: Seq<Value>) -> Seq<ValModel>
    decreases s,
{
    if s.len() == 0 {
        Seq::empty()
    } else {
        models_of(s.drop_last()).push(s.last()@)
    }
}

impl View for Value {
    type V = ValModel;

    open spec fn view(&self) -> ValModel
        decreases self,
    {
        match self {
            Value::Null => ValModel::Null,
            Value::Bool(b) => ValModel::Bool(*b),
            Value::Int(i) => ValModel::Int(*i as int),
            Value::Str(s) => ValModel::Str(s@),
            Value::List(items) => ValModel::List(models_of(items@)),
        }
    }
}

/// `models_of` maps the sequence pointwise.
pub proof fn lemma_models_of_index(s: Seq<Value>)
    ensures
        models_of(s).len() == s.len(),
        forall|i: int| 0 <= i < s.len() ==> models_of(s)[i] == #[trigger] s[i]@,
    decreases s.len(),
{
    if s.len() > 0 {
        let prefix = s.drop_last();
        lemma_models_of_index(prefix);
        assert(models_of(s) == models_of(prefix).push(s.last()@));
        assert forall|i: int| 0 <= i < s.len() implies models_of(s)[i] == #[trigger] s[i]@ by {
            if i < s.len() - 1 {
                assert(prefix[i] == s[i]);
                assert(models_of(prefix)[i] == prefix[i]@);
                assert(models_of(s)[i] == models_of(prefix)[i]);
            } else {
                assert(models_of(s)[i] == s.last()@);
            }
        }
    }
}

/// Two value sequences with pointwise equal models have equal models.
pub proof fn lemma_models_of_pointwise(a: Seq<Value>, b: Seq<Value>)
    requires
        a.len() == b.len(),
        forall|i: int| 0 <= i < a.len() ==> a[i]@ == #[trigger] b[i]@,
    ensures
        models_of(a) == models_of(b),
{
    lemma_models_of_index(a);
    lemma_models_of_index(b);
    assert forall|i: int| 0 <= i < models_of(a).len() implies models_of(a)[i] == models_of(b)[i] by {
        assert(models_of(a)[i] == a[i]@);
        assert(models_of(b)[i] == b[i]@);
        assert(a[i]@ == b[i]@);
    }
    assert(models_of(a) =~= models_of(b));
}

/// A deep copy whose model equals the original's.
#[verifier::loop_isolation(false)]
pub fn clone_value(v: &Value) -> (r: Value)
    ensures
        r@ == v@,
    decreases v,
{
    match v {
        Value::Null => Value::Null,
        Value::Bool(b) => Value::Bool(*b),
        Value::Int(i) => Value::Int(*i),
        Value::Str(s) => Value::Str(s.clone()),
        Value::List(items) => {
            let mut out: Vec<Value> = Vec::new();
            let mut i: usize = 0;
            while i < items.len()
                invariant
                    i <= items.len(),
                    out@.len() == i as int,
                    forall|j: int| 0 <= j < i as int ==> out@[j]@ == #[trigger] items@[j]@,
                decreases items.len() - i,
            {
                proof {
                    assert(decreases_to!(*v => items@[i as int])) by {
                        assert(decreases_to!(*v => v->List_0));
                        assert(decreases_to!(v->List_0 => v->List_0[i as int]));
                    }
                }
                let c = clone_value(&items[i]);
                out.push(c);
                i += 1;
            }
            proof {
                lemma_models_of_pointwise(out@, items@);
            }
            Value::List(out)
        },
    }
}

impl Clone for Value {
    /// Deep copy; the copy's model equals the original's.
    fn clone(&self) -> (r: Self)
        ensures
            r@ == self@,
    {
        clone_value(self)
    }
}

/// Typed extraction from a dynamically typed [`Value`], the analogue of
/// downcasting a type-erased box and cloning its contents.
pub trait FromValue: Sized {
    /// Whether the value holds this type.
    spec fn value_matches(v: ValModel) -> bool;

    /// Whether `r` is the payload the value holds.
    spec fn extracted(v: ValModel, r: Self) -> bool;

    /// Extract and clone the payload, or report the mismatch with `None`.
    fn from_value(v: &Value) -> (r: Option<Self>)
        ensures
            r is Some <==> Self::value_matches(v@),
            r matches Some(t) ==> Self::extracted(v@, t),
    ;
}

impl FromValue for i64 {
    open spec fn value_matches(v: ValModel) -> bool {
        v is Int
    }

    open spec fn extracted(v: ValModel, r: i64) -> bool {
        v == ValModel::Int(r as int)
    }

    fn from_value(v: &Value) -> (r: Option<i64>) {
        match v {
            Value::Int(i) => Some(*i),
            _ => None,
        }
    }
}

impl FromValue for bool {
    open spec fn value_matches(v: ValModel) -> bool {
        v is Bool
    }

    open spec fn extracted(v: ValModel, r: bool) -> bool {
        v == ValModel::Bool(r)
    }

    fn from_value(v: &Value) -> (r: Option<bool>) {
        match v {
            Value::Bool(b) => Some(*b),
            _ => None,
        }
    }
}

impl FromValue for String {
    open spec fn value_matches(v: ValModel) -> bool {
        v is Str
    }

    open spec fn extracted(v: ValModel, r: String) -> bool {
        v == ValModel::Str(r@)
    }

    fn from_value(v: &Value) -> (r: Option<String>) {
        match v {
            Value::Str(s) => Some(s.clone()),
            _ => None,
        }
    }
}

/// Extract a typed payload from a dynamically typed value, cloning it;
/// `None` when the value holds a different type.
pub fn clone_box<T: FromValue>(boxed: &Value) -> (r: Option<T>)
    ensures
        r is Some <==> T::value_matches(boxed@),
        r matches Some(t) ==> T::extracted(boxed@, t),
{
    T::from_value(boxed)
}

} // verus!
