//! User settings kept as `KEY=value` lines in a `.env` file.

pub mod config;
