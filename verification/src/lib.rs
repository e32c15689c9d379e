//! Core of a URL shortener: allocation of short identifiers, a link store
//! with two uniqueness invariants, and the shorten/redirect services.
pub mod errors;
pub mod idgen;
pub mod link;
pub mod service;
pub mod store;
pub mod web;
