//! Verified core of an SSO credential session manager.
//!
//! The library turns an identity-provider start URL into short-lived,
//! per-role cloud credentials: it derives a stable session identity,
//! caches the device-authorization access token, lists accounts and
//! roles reachable under that token, exchanges an (account, role) pair
//! for temporary credentials, and assembles a federated console
//! sign-in URL.  All protocol decisions live here; terminal rendering,
//! file and network transport sit outside the library.
#![allow(unused_imports)]

pub mod cache;
pub mod directory;
pub mod errors;
pub mod exchange;
pub mod federation;
pub mod flow;
pub mod identity;
pub mod json;
pub mod model;
pub mod token;
pub mod text;
