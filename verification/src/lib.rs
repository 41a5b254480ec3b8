//! A tracker of parcels: it takes tracking numbers from a server, looks each one up with the
//! carrier, and hands what it found back in batches.
//!
//! This crate holds what the tracker decides and computes. Talking to the network, the clock and
//! the file system is left to its caller: the modules [`fetch`], [`token`], [`report_ip`],
//! [`producer`], [`submitter`] and [`lifecycle`] each say what to do next, are told what came of
//! it, and go on from there.

pub mod config;
pub mod dates;
pub mod fetch;
pub mod json;
pub mod lifecycle;
pub mod numbers;
pub mod pipeline;
pub mod producer;
pub mod proxies;
pub mod reply;
pub mod report_ip;
pub mod submitter;
pub mod system;
pub mod text;
pub mod token;
pub mod worker;
