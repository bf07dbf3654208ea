//! Core of an anonymous one-posting-per-visitor board: identity resolution
//! from a browser cookie, fixed-window request throttling keyed by source
//! address, and idempotent create-or-replace of each identity's single
//! posting, with the store behind a capability interface.

pub mod error;
pub mod handlers;
pub mod identity;
pub mod models;
pub mod memory;
pub mod ratelimit;
pub mod service;
pub mod store;
