//! What the operations are for, stated over the functions that their contracts
//! speak of: each law says what a result must satisfy in terms of the inputs and
//! of what the outside crates compute.

pub mod boxes;
pub mod download;
pub mod faces;
pub mod library;
pub mod listing;
pub mod loading;
pub mod login;
pub mod people;
pub mod readings;
pub mod requests;
pub mod sessions;
pub mod srp;
pub mod views;
