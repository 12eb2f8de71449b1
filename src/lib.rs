//! Decoder for the JVM class file format: constant pool, attributes,
//! bytecode instructions, and the descriptor and signature grammars.
use vstd::prelude::*;

pub mod attribute;
pub mod attributes;
pub mod class;
pub mod code;
pub mod descriptor;
pub mod error;
pub mod flags;
pub mod instruction;
pub mod locals;
pub mod pool;
pub mod pool_laws;
pub mod reader;
pub mod refs;
pub mod signature;
pub mod stack_map;

pub use class::{ClassFile, Field, Method};
pub use error::{Error, Result};
