//! Core of an OAuth-style credential-issuance flow: short-lived
//! authorization grants, one-time exchange of a grant for an access token,
//! hashed token storage, and token validation against an expiry policy.
//!
//! The engine itself performs no I/O: callers supply the current time and
//! freshly generated identifiers, and pass the two stores explicitly.

pub mod db;
pub mod decimal;
pub mod error;
pub mod hash;
pub mod oauth;

pub use hash::hash;
pub use hash::HashErr;
