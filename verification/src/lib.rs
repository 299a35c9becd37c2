//! Core of a guild-emoji dashboard backend: a gateway session state machine,
//! concurrent guild/session caches with a reverse index and TTL eviction, and
//! a rate-limit-aware retry policy for outbound REST calls.

pub mod auth;
pub mod discord;
pub mod error;
pub mod gateway;
pub mod guild_cache;
pub mod image;
pub mod json;
pub mod numbers;
pub mod retry_middleware;
pub mod session_cache;
pub mod theme;
pub mod types;
