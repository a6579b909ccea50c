//! Keeps a DOCA Weave server in line with an Astra configuration, and holds the material of mTLS
//! profiles to its rules.
//!
//! The update: [`update`] takes the decisions, one call to the server at a time, by the rules in
//! [`networks`], [`attachments`] and [`status`]. [`progress`] and [`runs`] say where an update
//! stands after any replies, and [`laws`], [`readiness`], [`cleanup`], [`convergence`],
//! [`server`] and [`success`] what holds of every run. [`requests`], [`reports`], [`visits`] and
//! [`deletions`] tell requests, reports and deletions by the fields of the configuration and of the
//! replies. [`log`] and [`passed_over`] say what of it is logged.
//!
//! The profiles: [`tls`] holds the rules, [`http`] and [`grpc`] what clients are built with, and
//! [`pki`] and [`paths`] what others make of certificates, keys and paths. [`tls_laws`] says what
//! holds of accepted material, and of the clients built with it.
pub mod astra;
pub mod attachments;
pub mod calendar;
pub mod cleanup;
pub mod convergence;
pub mod deletions;
pub mod error;
pub mod grpc;
pub mod http;
pub mod laws;
pub mod log;
pub mod networks;
pub mod passed_over;
pub mod paths;
pub mod pki;
pub mod progress;
pub mod readiness;
pub mod reports;
pub mod requests;
pub mod runs;
pub mod server;
pub mod service;
pub mod status;
pub mod success;
pub mod text;
pub mod tls;
pub mod tls_error;
pub mod tls_laws;
pub mod update;
pub mod visits;
pub mod weave;
