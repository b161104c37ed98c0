//! Capture pipeline for a live traffic feed: a polling state machine bounded
//! by an event's time window, a relevance filter that keeps the pilots that
//! belong to the event, and a consolidation step that merges the captured
//! snapshots into one aggregate.
//!
//! Everything here works on plain values. Network requests, files, clocks and
//! geodesic arithmetic are the caller's business; the caller hands in what it
//! read or measured and carries out what the library decides.

pub mod airport;
pub mod capture;
pub mod combine;
pub mod consumer;
pub mod event;
pub mod filter;
pub mod keyed;
pub mod pilot;
pub mod poller;
pub mod position;
pub mod text;
pub mod time;
