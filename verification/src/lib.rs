//! Release management for a Kubernetes-style declarative object store.
//!
//! A release is a named set of objects that is installed, upgraded, verified
//! and deleted as one unit. This crate holds the coordination core: the
//! object model, the diff plan between two object sets, the plan executor
//! with its compensating rollback, the advisory lock protocol, the persisted
//! release state and the structural verifier. Transport towards the cluster
//! is left to the caller, which performs the requests that the state
//! machines of this crate hand out and reports their outcome back.

pub mod cluster;
pub mod hash;
pub mod identifier;
pub mod json;
pub mod k8s;
pub mod manager;
pub mod meta;
pub mod objects;
pub mod release;
pub mod resources;
pub mod sorted_map;
pub mod text;
