//! Verified core of a byte-matrix transpose benchmark.
//!
//! A flat file of `size` bytes is viewed as a row-major matrix of
//! `rows x cols` bytes, with the dimensions derived from the size alone.
//! This crate holds the verified logic: dimension planning, the
//! deterministic dataset pattern, the five transpose strategies (proved
//! to agree on one canonical transpose), the byte-equality checker, and
//! the run-configuration rules. File and console handling live outside.

pub mod checker;
pub mod config;
pub mod dims;
pub mod pattern;
pub mod strategies;
pub mod transpose;
