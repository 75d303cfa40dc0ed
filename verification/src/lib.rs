//! Calendar agenda core: event normalisation, merging and caching.

pub mod agenda;
pub mod auth;
pub mod cache;
pub mod calendar;
pub mod cli;
pub mod config;
pub mod error;
pub mod layout;
pub mod list;
pub mod output;
pub mod text;
pub mod time;
