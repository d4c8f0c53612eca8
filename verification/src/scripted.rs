//! Table-driven node logic: behaviour described by plain data.
//!
//! A [`ScriptedNode`] implements the [`Node`](crate::node::Node) trait
//! with each lifecycle phase chosen by a small script value, so whole
//! graphs of varied behaviour can be assembled without writing a new
//! logic type — the closed set of tagged variants that a dynamic
//! dispatch over node kinds boils down to.

use vstd::prelude::*;

use crate::error::{ActionName, MinLLMError};
use crate::node::{res_model, Node};
use crate::store::{map_of_pairs, params_from_pairs, ParamMap, SharedStore};
use crate::value::{clone_value, ValModel, Value};

verus! {

broadcast use vstd::seq::group_seq_axioms;

/// What the prepare phase does.
pub enum PrepScript {
    /// Yield `Null`.
    Unit,
    /// Yield a copy of the given value.
    Constant(Value),
    /// Yield a copy of the value stored under the key, or `Null` when
    /// the key is absent.
    FromStore(String),
    /// Fail with the given error.
    Fail(MinLLMError),
}

/// What the execute phase does.
pub enum ExecScript {
    /// Yield a copy of the prepared value.
    Echo,
    /// Yield a copy of the given value.
    Constant(Value),
    /// Yield twice the prepared integer; anything else, or a doubling
    /// that would not fit, is a node execution error.
    DoubleInt,
    /// Attempt `k` yields the `k`-th outcome, attempts past the end
    /// repeat the last one; an empty list is a node execution error.
    Outcomes(Vec<Result<Value, MinLLMError>>),
    /// Fail with the given error, at every attempt.
    Fail(MinLLMError),
}

/// What the fallback does once every execute attempt has failed.
pub enum FallbackScript {
    /// Re-raise the last error (the conventional default).
    Reraise,
    /// Swallow the error and yield a copy of the given value.
    Recover(Value),
}

/// What the post phase does.
pub enum PostScript {
    /// Write nothing; return the given action label.
    Action(String),
    /// Store the execute result under `key`; return `action`.
    StoreExec { key: String, action: String },
    /// Store the execute result under the key named by the string
    /// parameter `param`; a missing or non-string parameter is a store
    /// error.  Returns `action`.
    StoreExecAtParam { param: String, action: String },
    /// Fail with the given error.
    Fail(MinLLMError),
}

/// The smallest integer whose doubling overflows.
pub open spec fn double_bound() -> int {
    0x4000_0000_0000_0000
}

/// Node logic described entirely by data: what each phase yields, and
/// the parameter sets a batch flow built on it replays.
pub struct ScriptedNode {
    pub prep_script: PrepScript,
    pub exec_script: ExecScript,
    pub fallback_script: FallbackScript,
    pub post_script: PostScript,
    pub param_seeds: Vec<Vec<(String, Value)>>,
}

impl ScriptedNode {
    /// Logic that behaves like the do-nothing default on every phase.
    pub fn unit() -> (r: Self)
        ensures
            r.prep_script is Unit,
            r.exec_script is Echo,
            r.fallback_script is Reraise,
            r.post_script matches PostScript::Action(a) && a@ == "default"@,
            r.param_seeds@.len() == 0,
    {
        ScriptedNode {
            prep_script: PrepScript::Unit,
            exec_script: ExecScript::Echo,
            fallback_script: FallbackScript::Reraise,
            post_script: PostScript::Action("default".to_owned()),
            param_seeds: Vec::new(),
        }
    }
}

impl Node for ScriptedNode {
    open spec fn prep_spec(
        &self,
        store: Map<Seq<char>, ValModel>,
        params: Map<Seq<char>, ValModel>,
    ) -> Result<ValModel, MinLLMError> {
        match self.prep_script {
            PrepScript::Unit => Ok(ValModel::Null),
            PrepScript::Constant(v) => Ok(v@),
            PrepScript::FromStore(k) => Ok(
                if store.contains_key(k@) {
                    store[k@]
                } else {
                    ValModel::Null
                },
            ),
            PrepScript::Fail(e) => Err(e),
        }
    }

    open spec fn exec_spec(&self, prep: ValModel, attempt: usize) -> Result<
        ValModel,
        MinLLMError,
    > {
        match self.exec_script {
            ExecScript::Echo => Ok(prep),
            ExecScript::Constant(v) => Ok(v@),
            ExecScript::DoubleInt => match prep {
                ValModel::Int(k) => if -double_bound() <= k < double_bound() {
                    Ok(ValModel::Int(2 * k))
                } else {
                    Err(MinLLMError::NodeError)
                },
                _ => Err(MinLLMError::NodeError),
            },
            ExecScript::Outcomes(outs) => if outs@.len() == 0 {
                Err(MinLLMError::NodeError)
            } else if (attempt as int) < outs@.len() {
                res_model(outs@[attempt as int])
            } else {
                res_model(outs@[outs@.len() - 1])
            },
            ExecScript::Fail(e) => Err(e),
        }
    }

    open spec fn fallback_spec(&self, prep: ValModel, err: MinLLMError) -> Result<
        ValModel,
        MinLLMError,
    > {
        match self.fallback_script {
            FallbackScript::Reraise => Err(err),
            FallbackScript::Recover(v) => Ok(v@),
        }
    }

    open spec fn post_spec(
        &self,
        store: Map<Seq<char>, ValModel>,
        params: Map<Seq<char>, ValModel>,
        prep: ValModel,
        exec_res: ValModel,
    ) -> Result<(Map<Seq<char>, ValModel>, Seq<char>), MinLLMError> {
        match self.post_script {
            PostScript::Action(a) => Ok((store, a@)),
            PostScript::StoreExec { key, action } => Ok((store.insert(key@, exec_res), action@)),
            PostScript::StoreExecAtParam { param, action } => if params.contains_key(param@) {
                match params[param@] {
                    ValModel::Str(k) => Ok((store.insert(k, exec_res), action@)),
                    _ => Err(MinLLMError::StoreError),
                }
            } else {
                Err(MinLLMError::StoreError)
            },
            PostScript::Fail(e) => Err(e),
        }
    }

    open spec fn prep_params_spec(
        &self,
        store: Map<Seq<char>, ValModel>,
        params: Map<Seq<char>, ValModel>,
    ) -> Result<Seq<Map<Seq<char>, ValModel>>, MinLLMError> {
        Ok(self.param_seeds@.map_values(|p: Vec<(String, Value)>| map_of_pairs(p@)))
    }

    fn prep(&self, store: &SharedStore, params: &ParamMap) -> (r: Result<Value, MinLLMError>) {
        match &self.prep_script {
            PrepScript::Unit => Ok(Value::Null),
            PrepScript::Constant(v) => Ok(clone_value(v)),
            PrepScript::FromStore(k) => match store.get(k.as_str()) {
                Some(v) => Ok(v),
                None => Ok(Value::Null),
            },
            PrepScript::Fail(e) => Err(*e),
        }
    }

    fn exec(&self, prep: &Value, attempt: usize) -> (r: Result<Value, MinLLMError>) {
        match &self.exec_script {
            ExecScript::Echo => Ok(clone_value(prep)),
            ExecScript::Constant(v) => Ok(clone_value(v)),
            ExecScript::DoubleInt => match prep {
                Value::Int(k) => if -0x4000_0000_0000_0000i64 <= *k && *k < 0x4000_0000_0000_0000i64
                    {
                    Ok(Value::Int(*k * 2))
                } else {
                    Err(MinLLMError::NodeError)
                },
                _ => Err(MinLLMError::NodeError),
            },
            ExecScript::Outcomes(outs) => if outs.len() == 0 {
                Err(MinLLMError::NodeError)
            } else {
                let idx = if attempt < outs.len() {
                    attempt
                } else {
                    outs.len() - 1
                };
                match &outs[idx] {
                    Ok(v) => Ok(clone_value(v)),
                    Err(e) => Err(*e),
                }
            },
            ExecScript::Fail(e) => Err(*e),
        }
    }

    fn exec_fallback(&self, prep: &Value, err: MinLLMError) -> (r: Result<Value, MinLLMError>) {
        match &self.fallback_script {
            FallbackScript::Reraise => Err(err),
            FallbackScript::Recover(v) => Ok(clone_value(v)),
        }
    }

    fn post(&self, store: &mut SharedStore, params: &ParamMap, prep: Value, exec_res: Value) -> (r:
        Result<ActionName, MinLLMError>) {
        match &self.post_script {
            PostScript::Action(a) => Ok(ActionName(a.clone())),
            PostScript::StoreExec { key, action } => {
                let act = ActionName(action.clone());
                store.set(key.as_str(), exec_res);
                Ok(act)
            },
            PostScript::StoreExecAtParam { param, action } => match params.get(param) {
                Some(v) => match v {
                    Value::Str(k) => {
                        let key = k.clone();
                        let act = ActionName(action.clone());
                        store.set(key.as_str(), exec_res);
                        Ok(act)
                    },
                    _ => Err(MinLLMError::StoreError),
                },
                None => Err(MinLLMError::StoreError),
            },
            PostScript::Fail(e) => Err(*e),
        }
    }

    #[verifier::loop_isolation(false)]
    fn prep_params(&self, store: &SharedStore, params: &ParamMap) -> (r: Result<
        Vec<ParamMap>,
        MinLLMError,
    >) {
        let mut out: Vec<ParamMap> = Vec::new();
        let mut i: usize = 0;
        while i < self.param_seeds.len()
            invariant
                i <= self.param_seeds@.len(),
                out@.len() == i as int,
                forall|j: int|
                    0 <= j < i as int ==> (#[trigger] out@[j])@ == map_of_pairs(
                        self.param_seeds@[j]@,
                    ) && out@[j].wf(),
            decreases self.param_seeds@.len() - i,
        {
            let p = params_from_pairs(&self.param_seeds[i]);
            out.push(p);
            i += 1;
        }
        proof {
            let ms = self.param_seeds@.map_values(|p: Vec<(String, Value)>| map_of_pairs(p@));
            assert(ms.len() == self.param_seeds@.len());
            assert forall|j: int| 0 <= j < out@.len() implies (#[trigger] out@[j])@ == ms[j] by {
                assert(ms[j] == map_of_pairs(self.param_seeds@[j]@));
            }
        }
        Ok(out)
    }
}

} // verus!
