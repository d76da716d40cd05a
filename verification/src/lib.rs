//! A URL-fuzzing engine: substitutes each word of a wordlist into a URL
//! template, classifies the outcome of each request (status code or
//! transport-error kind), and aggregates the resulting URLs by
//! classification key.
//!
//! The engine itself is free of I/O: a driver feeds it words, performs the
//! HTTP requests, and hands the outcomes back to be recorded.

pub mod classify;
pub mod config;
pub mod engine;
pub mod outcome;
pub mod queue;
pub mod stats;
pub mod text;
pub mod transport;
pub mod writer;
