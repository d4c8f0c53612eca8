//! A minimal graph-based task orchestration engine.
//!
//! Units of work ("nodes") are composed into directed graphs ("flows");
//! after each node runs, the edge taken next is chosen at runtime by a
//! string label (an "action") that the node's post phase returns.  Nodes
//! retry their execute phase under a per-node retry policy, flows walk
//! the graph from a start node until no successor matches, and batch
//! variants replay a node's execute phase or a whole flow once per
//! element of a collection.  Every public operation carries a contract
//! that pins its result down against a mathematical model of the engine.

pub mod error;
pub mod flow;
pub mod laws;
pub mod node;
pub mod scripted;
pub mod store;
pub mod table;
pub mod value;

pub use error::{ActionName, MinLLMError};
pub use flow::{get_next_node, BatchFlow, Flow, NextNode};
pub use node::{exec_batch_with_retry, exec_with_retry, retry_decision, BaseNode, BatchNode, GraphNode, Node, RegularNode, RetryDecision, RetryReport};
pub use scripted::{ExecScript, FallbackScript, PostScript, PrepScript, ScriptedNode};
pub use store::{merge_params, params_from_pairs, ParamMap, SharedStore};
pub use value::{clone_box, FromValue, ValModel, Value};
