//! Decision logic of a market-data server for AI agents.

pub mod analytics;
pub mod auth;
pub mod catalog;
pub mod cli;
pub mod config;
pub mod errors;
pub mod etl;
pub mod filings;
pub mod json;
pub mod keys;
pub mod names;
pub mod oauth;
pub mod pool;
pub mod records;
pub mod schema;
pub mod screen;
pub mod serving;
pub mod store;
pub mod text;
pub mod tools;
pub mod vet;
