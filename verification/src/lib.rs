//! Semantic core of a compiler for a language with generics, trait-style
//! interfaces and struct types: a symbol directory with forward-reference
//! resolution, a generics and trait-bound resolution engine producing
//! monomorphized specializations, a virtual-dispatch-table manager, and a
//! demand-driven code-generation driver that lowers a fixed catalogue of
//! built-in operations to backend primitives.

pub mod backend;
pub mod blocks;
pub mod directory;
pub mod errors;
pub mod function;
pub mod generics;
pub mod machine;
pub mod resolver;
pub mod solver;
pub mod structure;
pub mod syntax;
pub mod type_getter;
pub mod types;
pub mod util;
pub mod vtable_manager;
