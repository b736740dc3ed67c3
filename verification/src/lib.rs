//! Indicator-of-compromise bookkeeping for the malScraper tool: command
//! parsing, report resolution, indicator classification, whitelist and
//! custom-feed management, report comparison, scan history, statistics,
//! search and filtering, validation, export formatting, payload processing
//! and update decisions, all stated over mathematical models and proved with
//! Verus.

pub mod text;
pub mod config;
pub mod command;
pub mod sets;
pub mod history;
pub mod compare;
pub mod indicators;
pub mod whitelist;
pub mod custom_feeds;
pub mod export;
pub mod export_docs;
pub mod json_text;
pub mod patterns;
pub mod stats;
pub mod reading;
pub mod validate;
pub mod file_ops;
pub mod search;
pub mod printer;
pub mod menu;
pub mod completer;
pub mod utils;
pub mod update;
pub mod cli;
pub mod scan;
