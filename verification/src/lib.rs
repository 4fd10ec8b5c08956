//! Three single-threaded memory/ownership primitives: an unchecked
//! copy-in/copy-out cell, a reference-counted shared box with an explicit
//! duplicate/destroy discipline, and a runtime-checked borrow cell with
//! shared and exclusive guards.

pub mod cell;
pub mod rc;
pub mod refcell;
