//! A verified core for a text-to-Cypher pipeline service.
//!
//! A request carries a natural-language conversation about a named graph.
//! The pipeline discovers the graph's schema (through a cache), asks a
//! language model for a Cypher query, executes the query, and streams an
//! answer back as an ordered sequence of progress frames.  This crate holds
//! the verified logic: the schema cache, the progress-frame protocol and its
//! JSON encoding, prompt construction, and the pipeline state machine.  The
//! unverified shell around it performs the network and model calls and feeds
//! their outcomes back in as events.

pub mod cache;
pub mod chat;
pub mod config;
pub mod pipeline;
pub mod progress;
pub mod strutil;
