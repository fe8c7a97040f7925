//! Verified building blocks: a summing buffer, string utilities, a counted
//! reference cell, a stack, the state machines of a single-threaded
//! executor, a key-value command service with its client parser and web
//! gateway, a replicated and sharded item store, and a file-name finder.

pub mod buffer;
pub mod text;
pub mod rc;
pub mod stack;
pub mod executor;
pub mod kv;
pub mod cluster;
pub mod find;
pub mod http;
