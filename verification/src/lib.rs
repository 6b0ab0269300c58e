//! The decisions of a sandbox launcher and of its signing proxy.

pub mod aws;
pub mod launcher;
pub mod packaging;
pub mod text;
