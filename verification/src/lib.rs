//! A verified Zanzibar-style fine-grained authorization core.
//!
//! The crate answers "does user U stand in relation R to object O?" over a
//! relationship-tuple store and a compiled authorization model.  Its heart
//! is the check resolver, proved equal to a specification-level evaluation
//! of the relation's rewrite tree: direct lookups, computed usersets,
//! tuple-to-userset traversal and the set operators, with a recursion
//! budget, a per-request cycle guard and exact datastore-query accounting.
//! Around it stand a memoizing cache layer, forward and reverse expanders
//! over the same rewrite trees, the schema compiler that turns the parsed
//! authorization DSL into the model the resolver consumes, and in-memory
//! tuple, model and tenant stores.

pub mod api;
pub mod cache_checker;
pub mod checker;
pub mod expander;
pub mod laws;
pub mod local_checker;
pub mod model;
pub mod objects_expander;
pub mod schema_ast;
pub mod storage;
pub mod tuple;
pub mod users_expander;
