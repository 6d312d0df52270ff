//! Local credential management and approval rules for scripts that call external APIs.
//!
//! A script runs in a sandbox. Each of its outbound requests is checked against the rules
//! of a Hub, which allows it, denies it, or holds it for a human decision; a request that
//! passes gets the credential of its domain, which stays on this machine, injected.

pub mod commands;
pub mod config;
pub mod credential_store;
pub mod engine;
pub mod execution;
pub mod guest;
pub mod handler;
pub mod headers;
pub mod hub_client;
pub mod json;
pub mod text;
pub mod types;
