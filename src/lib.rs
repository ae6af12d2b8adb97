//! Reports a container registry's pull rate-limit quota.
//!
//! The network exchanges happen outside this library; it decides what a token
//! response and a quota probe response mean, and parses the quota headers.

pub mod err;
pub mod limit;
pub mod token;
pub mod run;
