//! Static type descriptions for expressions of a remapping language: which
//! kinds of values an expression may produce, what sits at each position or
//! field of a container, and whether the expression can fail.
//!
//! - [`kind`]: flat sets of value categories.
//! - [`info`]: structured kind information and its abstract model.
//! - [`merge`]: "either this or that" on kind information.
//! - [`project`]: kind information narrowed along a path.
//! - [`type_def`]: the builder and query surface over it.
//! - [`laws`]: what holds of these operations together.

pub mod info;
pub mod kind;
pub mod laws;
pub mod merge;
pub mod path;
pub mod project;
pub mod type_def;

pub use info::{Field, Index, KindInfo, KnownKinds, TypeKind};
pub use kind::Kind;
pub use path::{Path, Segment};
pub use type_def::TypeDef;
