//! A consent-gated, encrypted, versioned store of user context.
//!
//! Context units are encrypted per user, updated under optimistic
//! concurrency, and third-party clients reach a user's data only through
//! time-bounded, scope-limited grants whose every change is audited.

pub mod text;
pub mod policy_engine;
mod runtime;
pub mod encryption;
pub mod consent_models;
pub mod consent_repository;
pub mod consent_manager;
pub mod context_models;
pub mod memory_adapter;
pub mod context_repository;
pub mod context_service;
pub mod api;
pub mod authorized;
