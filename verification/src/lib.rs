//! A key-value configuration table served from an in-memory snapshot.
//!
//! The table lives in a backing store. A coordinator owns a snapshot of it,
//! answers fetches from the snapshot, hands writes on to the store, and
//! replaces the snapshot by a fresh load after every write that went through
//! and at regular intervals. This crate holds what the coordinator decides
//! and what a response says; making the calls on the store and serving HTTP
//! is left to the program that uses it.
//!
//! - [`rows`]: the mathematical model of a table.
//! - [`models`]: the rows of the table.
//! - [`pair_map`]: the map that a snapshot is.
//! - [`config_store`]: the coordinator.
//! - [`store_model`]: what the coordinator takes the store to do, and what
//!   then holds of the snapshot.
//! - [`text`]: cutting a list of names into names.
//! - [`encoding`]: JSON values and their text.
//! - [`routes`]: payloads to requests, outcomes to response bodies.

pub mod config_store;
pub mod encoding;
pub mod models;
pub mod pair_map;
pub mod routes;
pub mod rows;
pub mod store_model;
pub mod text;
