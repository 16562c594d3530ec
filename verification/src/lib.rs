//! A binding to the sophia embedded database, split into a verified core
//! and a thin foreign-function shell.
//!
//! The library never touches C memory itself. Every operation of the binding
//! computes, as plain values, the exact C call that has to be made
//! ([`call::Call`]), and every C reply that matters is interpreted by a
//! verified function that takes it as an argument.

pub mod call;
pub mod env;
pub mod object;
pub mod workload;

pub use call::{Call, CallView, Voidptr};
pub use env::{Cursor, Db, Env, HandleView, SetGetOps, Transaction};
pub use object::{DbObject, DbResultObject, ObjectView};
