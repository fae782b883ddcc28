//! A typed state-machine runtime for cluster-managed objects: the edge table,
//! transitions, the per-object runner, the registry of live objects and the
//! status documents published for them, with the socket types the node agent
//! talks through.
pub mod edges;
pub mod transition;
pub mod runner;
pub mod registry;
pub mod status;
pub mod states;
pub mod uds;
