//! Authorization core for a multi-tenant administrative backend.
//!
//! The crate covers token issuance and verification (a tamper-evident,
//! self-contained credential), permission resolution for a principal over
//! user/role/menu stores, the login state machine, and the request-gating
//! decision applied by the access-control middleware.

pub mod auth;
pub mod decfmt;
pub mod handlers;
pub mod hexfmt;
pub mod perm;
pub mod response;
pub mod session;
pub mod store;
pub mod token;
pub mod vo;
