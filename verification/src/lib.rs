//! A portable model of relational database schemas and its rendering as DBML text.

pub mod clean;
pub mod commander;
pub mod config;
pub mod db;
pub mod dbml;
pub mod duplicate;
pub mod error;
pub mod generate;
pub mod key;
pub mod names;
pub mod references;
pub mod scan;
pub mod search;
pub mod text;
pub mod validate;
