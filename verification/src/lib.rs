//! Core runtime of a personal, multi-channel assistant gateway.
//!
//! The library holds the verified logic of the runtime: session routing and
//! the event bus, the agent turn state machine, the LLM reliability and
//! failover policies, the tool registry with its default-deny permission
//! model, the sandbox (path validation, SSRF filtering, output truncation),
//! the webhook gateway rules (authentication, signature verification,
//! deduplication, health counters), the cron scheduler, and the context
//! builder. Transport I/O, HTTP serving and process spawning live outside
//! the library and hand it plain values.

pub mod adapter;
pub mod agent;
pub mod attachment;
pub mod bus;
pub mod channel;
pub mod config;
pub mod context;
pub mod cron;
pub mod crypto;
pub mod dedupe;
pub mod errors;
pub mod exec;
pub mod gateway;
pub mod health;
pub mod heartbeat;
pub mod metrics;
pub mod permissions;
pub mod provider;
pub mod registry;
pub mod sandbox;
pub mod secrets;
pub mod session;
pub mod sheets;
pub mod skills;
pub mod sys;
pub mod text;
pub mod tools;
pub mod types;
pub mod web;
