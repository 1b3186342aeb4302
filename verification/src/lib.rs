//! Core of a waste-collection schedule browser: a uniform query interface over
//! heterogeneous municipal waste-collection backends.
//!
//! The crate models the shared domain (cities, addresses, dates, waste
//! fractions), the per-city translation logic that shapes backend requests and
//! interprets backend responses, a registry resolving a city to its provider,
//! and a facade routing calls. All backend I/O is left to the caller: each
//! provider exposes request descriptions and response translators, so a caller
//! performs the HTTP exchange and hands the decoded records back.

pub mod cologne;
pub mod date;
pub mod model;
pub mod numbers;
pub mod nuremberg;
pub mod plugin;
pub mod ports;
pub mod query;
pub mod service;
pub mod sorting;
pub mod text;
