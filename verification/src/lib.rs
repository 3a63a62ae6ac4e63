//! Lowering types and constants of the source language to SPIR-V, and judging
//! compute shaders by the functions that they were compiled from.
//!
//! [`context`] holds what callers use; [`lower`] says what lowering a type means
//! and [`constant`] the same of constants; [`harness`] plans and judges the run of
//! a compute shader. [`builder`] is where the library meets `rspirv`.
//!
//! [`meaning`] states that the instructions of a module say what its types are,
//! [`parts`] how lowering a type relates to lowering its parts, [`emission`] what
//! a constant becomes, [`numbers`] what rounding does to a number, and [`binary`]
//! what words and bytes hold; [`laws`] and [`order`] state what holds of a
//! compilation as a whole.

pub mod binary;
pub mod builder;
pub mod cache;
pub mod constant;
pub mod context;
mod emit;
pub mod emission;
pub mod harness;
pub mod laws;
pub mod layout;
pub mod lower;
pub mod meaning;
pub mod mono;
pub mod nearest;
pub mod numbers;
pub mod order;
pub mod parts;
pub mod single;
pub mod support;
pub mod ty;
pub mod words;
