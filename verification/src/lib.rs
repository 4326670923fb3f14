//! Core model of a typed, arity-polymorphic dataflow graph: arena-based
//! entity storage with typed integer indices, a structural type system with
//! unification over free type variables, an arity/overload resolver, and a
//! dual port/node graph that stays acyclic under edits.

pub mod arena;
pub mod arity;
pub mod graph;
pub mod model;
pub mod types;
pub mod unify;
