//! Keeps DNS address records of a set of domains in line with the host's
//! current public IPv4 address: the decisions of one reconciliation run,
//! from domain names and provider answers to the writes that must follow.

pub mod address;
pub mod clients;
pub mod config;
pub mod domain;
pub mod error;
pub mod reconcile;
