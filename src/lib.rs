//! Session issuance and lifecycle for a hosted platform: password checks,
//! multi-factor gating, and token rotation over a soft-revocation log.

pub mod error;
pub mod session;
pub mod credential;
pub mod mfa;
pub mod auth;
pub mod parent;
pub mod ratelimit;
pub mod revision;
pub mod active_enums;
