//! A library for runbooks: markdown documents whose fenced code blocks are
//! executed, in document order, as supervised interpreter processes.
//!
//! `books` holds the document model: parsing raw markdown into an ordered
//! node list, extracting code blocks, and decoding per-block metadata.
//! `runner` holds the task engine: the status state machine that drives one
//! task per code block under a configurable execution policy.
//! `conf`, `cli` and `app` hold the configuration schema, the command
//! surface's data, and the application core.

pub mod app;
pub mod books;
pub mod cli;
pub mod conf;
pub mod runner;
