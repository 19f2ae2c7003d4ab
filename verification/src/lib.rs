//! Core of a deployment server: it tracks each triggered run of a deploy
//! script as a `Job`, merges the script's standard-output and standard-error
//! streams into one tagged, chronologically ordered line sequence, records the
//! terminal exit status, and serves consistent snapshots of all jobs to
//! concurrent readers.
//!
//! The process plumbing (spawning the script, reading its pipes, the HTTP
//! layer) lives outside; this crate holds the verified state and stream
//! logic those parts drive.

pub mod authorize;
pub mod job;
pub mod lines;
pub mod output;
pub mod registry;
pub mod render;
pub mod resolve;
pub mod service;
