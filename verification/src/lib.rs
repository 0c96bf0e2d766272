//! A retargetable disassembler engine for 8/16-bit instruction families.
//!
//! An architecture is data: ordered match rules over bytes, named transform
//! pipelines, and formatting metadata. The engine folds a byte window through
//! the rules of the architecture that the context currently selects and
//! hands every rendered node to a caller-supplied sink.
//!
//! - [`arch`] holds architectures, the context of a pass, the engine, what
//!   holds of every pass, and the three built-in architectures.
//! - [`symbols`] holds named values and their insertion-ordered table.
//! - [`patch`] holds the byte patches that precede a pass.
//! - [`value`], [`text`] and [`number`] hold widths and formats, text
//!   building blocks, and the reading of numbers.
//! - [`config`] and [`command`] hold what the front ends decide before they
//!   read or write anything.
use vstd::prelude::*;

pub mod arch;
pub mod command;
pub mod config;
pub mod error;
pub mod name_map;
pub mod number;
pub mod patch;
pub mod search;
pub mod symbols;
pub mod text;
pub mod value;

pub use arch::transform::try_to_node;
pub use error::{Error, FdResult};
pub use value::{DataType, ValueTypeFmt};

verus! {

/// A byte position in the logical address space.
pub type Address = u64;

/// The uniform representation of every decoded operand.
pub type ValueType = i64;

} // verus!
