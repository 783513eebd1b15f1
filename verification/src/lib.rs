//! Core of a batch query service: a request names independent SQL queries by
//! label; each runs against an external execution backend; the response maps
//! every label to either its materialized rows or its own isolated error.
//!
//! This crate holds the verified logic: decoding and validating the batch,
//! label-indexed collection of out-of-order completions, materialization of
//! backend rows into a uniform shape, and rendering of the response body.
//! Transport, logging and the backend client's lifecycle stay outside.

pub mod backend;
pub mod bytes;
pub mod collect;
pub mod render;
pub mod request;
pub mod scalar;
