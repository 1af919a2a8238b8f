//! What can I do? Enumerates what an identity may do against every resource kind that the
//! control plane of a cluster exposes: for each kind and each verb, allowed or not.
//!
//! The library decides and the caller talks to the control plane. A run goes through the
//! modules in this order:
//!
//! - `config` resolves the caller's options, with `verbs` for the verbs to probe;
//! - `discovery` says which group-versions to list and merges the lists into the catalog;
//! - `check` says which resource kinds take part and which queries to send, takes the
//!   answers, and assembles the outcome; `wire` writes the body of a query;
//! - `run` describes a run as a whole and states what holds of every run;
//! - `formatter` lays the outcome out, as a table or as a structured document, for the
//!   caller to print.
//!
//! `types` holds the outcome of a run, `text` the handling of characters.

pub mod check;
pub mod config;
pub mod discovery;
pub mod formatter;
pub mod run;
pub mod text;
pub mod types;
pub mod verbs;
pub mod wire;
