//! Scheduling engine for recurring and one-shot agent jobs: schedule
//! evaluation, the job and run model, job stores, and the service that
//! serialises job mutation and records run history.

pub mod calendar;
pub mod expr;
pub mod field;
pub mod formats;
pub mod gateway;
pub mod json;
pub mod memory_writer;
pub mod parse;
pub mod schedule;
pub mod service;
pub mod status;
pub mod store;
pub mod store_file;
pub mod store_memory;
pub mod store_sqlite;
pub mod text;
pub mod tools;
pub mod types;
