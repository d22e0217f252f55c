//! Structured interpretation of a command-line package manager's console
//! output, together with the state reconciliation rules that keep an
//! interactive front end consistent under concurrent asynchronous fetches.
//!
//! The crate splits into the output pipeline — cleaning raw process text
//! (`text`), locating the header/separator pair and inferring the column
//! layout (`layout`, `width`), reading data rows and detail blocks
//! (`rows`, `detail`, `cli_backend`) — and the generation-based
//! reconciliation of asynchronous results (`reconcile`) over the data
//! model (`models`).

pub mod models;
pub mod text;
pub mod width;
pub mod layout;
pub mod rows;
pub mod detail;
pub mod reconcile;
pub mod cli_backend;
