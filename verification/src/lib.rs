//! Core of a streamed-LED-frame pipeline: many network clients send raw
//! byte frames, one render loop drives them to an addressable LED strip at a
//! fixed cadence.
//!
//! This crate holds the verified logic of that pipeline: the frame codec,
//! the connection registry, the single-slot frame mailbox with its
//! latest-wins policy, the render-loop decisions, and the latency tracker.
//! The unverified shell around it (sockets, threads, the strip driver)
//! lives outside and hands these functions plain values.

pub mod connection;
pub mod data;
pub mod ingest;
pub mod mailbox;
pub mod render;
pub mod stats;
