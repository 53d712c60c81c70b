//! A build-time generator: it reads the declarations of data types and
//! routines out of annotated source text and emits a compilation unit
//! through which a host can list them, learn their shape and call them
//! by index.

pub mod emit;
pub mod emit_systems;
pub mod emit_types;
pub mod extract;
pub mod filter;
pub mod generator;
pub mod laws;
pub mod model;
pub mod registry;
pub mod registry_laws;
pub mod signature;
pub mod text;

pub use crate::filter::filter_comments;
pub use crate::generator::{generate, gen_version};
pub use crate::model::{ArgType, FfiGenerator, StructInfo, StructType, SystemInfo, SystemInputInfo};
pub use crate::signature::{parse_struct, parse_system, ParseError};
