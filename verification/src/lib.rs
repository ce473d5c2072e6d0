//! Credential and session lifecycle management: account creation,
//! password-based login, forgotten-password initiation, password reset,
//! and access-token validation, over modelled user and session stores.

pub mod errors;
pub mod hex;
pub mod laws;
pub mod password;
pub mod service;
pub mod session;
pub mod store;
pub mod token;
