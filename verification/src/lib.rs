//! Accounting and reclamation of the disk space and memory that Gradle builds
//! leave behind on a machine.
//!
//! The library works on plain values: directory listings, process tables and
//! removal reports are handed in by the caller, and every decision taken on
//! them is stated in a contract.

pub mod accounting;
pub mod amount;
pub mod cli;
pub mod disk;
pub mod models;
pub mod ram;
pub mod text;
pub mod wiper;
