//! The decisions of a small gossip node: how it finds and dials its peers, how
//! it retries, how it matches replies to requests, what it does about swarm
//! events, and how its protocols are configured.
//!
//! The library does no I/O. The program around it looks names up, drives the
//! swarm and the channels, sleeps and prints, and asks the library what to do.
pub mod address;
pub mod config;
pub mod dial;
pub mod error;
pub mod event;
pub mod outside;
pub mod retry;
pub mod role;
pub mod swarm;
pub mod text;
