//! SigV4 support: which service and region a host belongs to, the credential
//! provider of each profile, and the signature itself.

pub mod dates;
pub mod endpoints;
pub mod limits;
pub mod provider;
pub mod resolve;
pub mod route;
pub mod sign;
pub mod signable;
