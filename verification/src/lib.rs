//! The structured dataflow core of an optimizing compiler.
//!
//! - [`rvsdg`]: the RVSDG data model, its decoder from a shared term graph
//!   and its encoder back, and what holds of the two.
//! - [`schema`], [`ast`]: the tree encoding and its constructors.
//! - [`add_context`]: the pass that tags every expression of a tree with
//!   the scope it stands in.
//! - [`type_analysis`]: the structural type checker of the tree encoding.
//! - [`bril`]: the types, literals and operators of the imperative
//!   language.
//! - [`util`]: the settings of a run of the compiler.

pub mod add_context;
pub mod ast;
pub mod bril;
pub mod rvsdg;
pub mod schema;
pub mod type_analysis;
pub mod util;
