//! rhb: the verified core of an HTTP load-testing tool.
//!
//! The library holds the logic of the tool: request-header parsing, the
//! configuration merge, the request-template language of data sets, the
//! token-bucket rate limiter, the statistics aggregator and the worker
//! dispatch rules. The program around it (network, files, terminal) lives
//! in `app/`.
pub mod cli;
pub mod client;
pub mod config;
pub mod dataset;
pub mod limiter;
pub mod number;
mod random;
pub mod stats;
pub mod text;
pub mod worker;
