//! Adaptive load balancer for redundant JSON-RPC providers: health state,
//! routing policy and dispatch decisions, with their contracts.

pub mod cli;
pub mod config;
pub mod dispatch;
pub mod health;
pub mod provider;
pub mod router;
pub mod text;
