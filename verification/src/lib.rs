//! A double-entry bookkeeping domain: journals hold trees of accounts,
//! records post amounts to accounts, and services validate and apply
//! commands against an in-memory store. The `seaorm` module holds what an
//! SQL store decides: the query conditions of specifications and the rows
//! that entities are written to and read back from.
use vstd::prelude::*;

pub mod account;
pub mod common;
pub mod decimal;
pub mod error;
pub mod inmemory;
pub mod journal;
pub mod laws;
pub mod record;
pub mod runtime;
pub mod seaorm;
pub mod specification;
pub mod store;
pub mod text;

verus! {

} // verus!
