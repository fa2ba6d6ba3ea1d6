//! A replicated vector database core: spaces, versions, vectors, snapshots,
//! a per-space key-value store and RBAC tokens, all mutated through typed
//! commands that are serialized into a JSON envelope, replicated through a
//! consensus log, and applied deterministically on every node.

pub mod bo;
pub mod command;
pub mod config;
pub mod dispatch;
pub mod dto;
pub mod engine;
pub mod handlers;
pub mod idcache;
pub mod json;
pub mod kv;
pub mod rbac;
pub mod raftnode;
pub mod report;
pub mod snapshot;
pub mod space;
pub mod text;
pub mod vector;
pub mod version;
