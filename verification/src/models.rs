//! The record types shipped with the library.

pub mod user;
