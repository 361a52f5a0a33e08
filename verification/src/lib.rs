//! Instrumentation core of a live tracing tool.
//!
//! The crate holds the bookkeeping that sits between pluggable collectors and
//! the instrumentation runtime: the probe and hook data model, the per-kind
//! attach protocol, the probe manager, the collector registry and the registry
//! of event unmarshalers. It performs no I/O. Whatever touches the running
//! system (loading programs, resolving processes and symbols) is done by the
//! caller, who hands plain values in and gets plain values back.

pub mod builder;
pub mod collector;
pub mod error;
pub mod events;
pub mod manager;
pub mod maps;
pub mod ovs;
pub mod probe;
pub mod user;
