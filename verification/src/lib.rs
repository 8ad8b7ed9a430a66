//! Verified core of an adapter in front of a self-hosted photo "museum".

pub mod account;
pub mod api;
pub mod bigint;
pub mod client;
pub mod config;
pub mod crypto;
pub mod doc;
pub mod encoding;
pub mod faces;
pub mod files;
pub mod float;
pub mod json;
pub mod laws;
pub mod order;
pub mod people;
pub mod random;
pub mod sessions;
pub mod srp;
pub mod sync;
pub mod tables;
pub mod text;
pub mod text_map;
