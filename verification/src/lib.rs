//! Verified core of the OxiFY workflow platform: data encryption, DAG
//! scheduling, caching, quotas and the small configuration types around them.

pub mod assoc;
pub mod bytes;
pub mod text;
pub mod hashing;
pub mod clock;
pub mod vision_crypto;
pub mod dag;
pub mod templating;
pub mod nodes;
pub mod secret_primitives;
pub mod secret_store;
pub mod cache;
pub mod quota;
pub mod websocket;
pub mod mcp;
pub mod mcp_database;
pub mod mcp_github;
pub mod mcp_web;
pub mod wasm;
pub mod sse;
pub mod engine;
pub mod authz_stats;
pub mod comm;
pub mod storage_config;
pub mod llm;
pub mod templates;
pub mod api;
pub mod checkpoint;
pub mod run;
pub mod node_step;
pub mod authz;
