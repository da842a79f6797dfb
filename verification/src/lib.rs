//! yapi: a command-line HTTP client whose requests, collections,
//! environments and variables live in a local database.
//!
//! This crate holds the verified core: request templating with
//! `{{ name }}` placeholders, variable maps, request resolution,
//! configuration paths and the decisions behind the command handlers.
pub mod dtypes;
pub mod text;
pub mod vars;
pub mod conf;
pub mod http;
pub mod cli;
pub mod db;
pub mod commands;
