//! A relay between a desktop client and a ClickHouse server's HTTP endpoint.
//!
//! The library builds the SQL text of four operations from structured inputs,
//! says what to send for each, and turns the server's reply into a uniform
//! result: schemas with their tables, a table of columns and rows, or the
//! status of the connection. It sends nothing itself; the caller performs the
//! exchange that [`transport::PostRequest`] describes and hands back a
//! [`transport::Reply`].
//!
//! Every function is verified against a contract that is stated over the
//! mathematical value (`@`) of its arguments and result.
//!
//! - [`commands`]: the four operations, each as a request step and a response
//!   step.
//! - [`query`]: the statements.
//! - [`escape`]: quoting of identifiers and literals.
//! - [`transport`]: the request and the classification of the reply.
//! - [`preview`], [`schemas`], [`status`]: decoding of response bodies.
//! - [`shape`], [`json`]: JSON documents and their fields.
//! - [`model`], [`error`]: the values handed in and out.
//! - [`text`], [`decimal`], [`lexical`]: operations on text.

pub mod commands;
pub mod decimal;
pub mod error;
pub mod escape;
pub mod json;
pub mod lexical;
pub mod model;
pub mod preview;
pub mod query;
pub mod schemas;
pub mod shape;
pub mod status;
pub mod text;
pub mod transport;

pub use crate::escape::escape_identifier;
