//! A local hub and protocol adapter for Model-Context-Protocol (MCP) servers.
//!
//! The library holds the verified core: the configuration model and its
//! validation, the per-backend connection state machine, the manager registry
//! with its health-cycle decisions, the JSON-RPC gateway logic (planning,
//! response wrapping, capability filtering), the legacy SSE URL handling, and
//! the stdio bridge decisions. Transports and other I/O live outside.

pub mod bridge;
pub mod clock;
pub mod codec;
pub mod config;
pub mod connection;
pub mod gateway;
pub mod json;
pub mod manager;
pub mod sse;
pub mod strutil;
pub mod transport;
pub mod types;
