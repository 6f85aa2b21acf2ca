//! Vetting and lifecycle logic for third-party agent skills and plugins:
//! rule-based scanning with decay scoring, terminal-output parsing, and
//! reconciliation of local install state against the driven CLI.

pub mod text;
pub mod outcome;
pub mod terminal;
pub mod scoring;
pub mod report;
pub mod decoder;
pub mod rules;
pub mod lines;
pub mod scanner;
pub mod cli;
pub mod cli_args;
pub mod models;
pub mod reconcile;
pub mod lifecycle;
pub mod source_path;
pub mod listing;
pub mod updates;
pub mod manifest;
pub mod orchestration;
pub mod featured;
