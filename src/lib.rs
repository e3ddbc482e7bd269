//! Core of a Linux container runtime: the pieces of the launch pipeline and of
//! the supervisor control plane that decide, encode and check, each stated by
//! its contract.

pub mod checkpoint;
pub mod client;
pub mod exit;
pub mod frame;
pub mod init;
pub mod launch;
pub mod message;
pub mod nonnul;
pub mod privileges;
pub mod process;
pub mod rlimits;
pub mod tracker;
