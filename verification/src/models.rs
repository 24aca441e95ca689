//! The plain data of the user API: query parameters, credentials, claims.

pub mod common;
pub mod user;
