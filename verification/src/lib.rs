//! The core of a pluggable node agent: the pieces that decide how pods are
//! keyed, queued, driven through their states and reported, each with a
//! machine-checked contract.
//!
//! The library takes no step that suspends or touches the outside world. The
//! program that embeds it reads the clock, does the waiting, the sending and
//! the calls to the cluster, and asks the library what to do next:
//!
//! - [`queue`] turns watch events into what has to happen to the per-pod
//!   mailboxes; [`task`] is the life of one pod's task and the flag that
//!   tells it of the pod's deletion.
//! - [`state`] and [`states`] are the pod's state machine and its executor;
//!   [`backoff`] is the policy that its backoff states wait by.
//! - [`store`] caches cluster objects.
//! - [`handle`], [`provider`], [`runtime`] and [`actor`] are what a
//!   provider of WebAssembly workloads holds and decides; [`container`] and
//!   [`pod`] are the workloads and their statuses.
//! - [`node`], [`webserver`] and [`config`] are the node's identity and
//!   lease, the routes of the log endpoint, and the agent's files and exit
//!   codes; [`registry`] is the client of an image registry.
//! - [`wasmerciser`] is the command language of the exerciser workload.
//! - [`table`], [`text`], [`object`] and [`time`] are the keyed table, the
//!   text helpers, the keys and the timestamps that the rest is built on.

pub mod actor;
pub mod backoff;
pub mod config;
pub mod container;
pub mod handle;
pub mod node;
pub mod object;
pub mod pod;
pub mod provider;
pub mod queue;
pub mod registry;
pub mod runtime;
pub mod state;
pub mod states;
pub mod store;
pub mod table;
pub mod task;
pub mod text;
pub mod time;
pub mod wasmerciser;
pub mod webserver;
