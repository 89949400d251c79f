//! Mirrors a machine-generated protocol schema into a hand-friendlier one and
//! carries out the bidirectional conversions between the two representations.
//!
//! The crate models the source schema as a tree of modules holding records and
//! unions, resolves a user-supplied specification (which fields are required)
//! against that tree, emits the mirror definitions together with one
//! conversion pair per record or union, and executes those conversions on
//! runtime values: a fallible downcast into the mirror and a total upcast
//! back.

pub mod config;
pub mod convert;
pub mod macro_args;
pub mod paths;
pub mod schema;
pub mod spec_tree;
pub mod traverse;
pub mod type_path;
pub mod value;

pub use spec_tree::SpecTree;
pub use spec_tree::SpecTreeLeaf;
pub use spec_tree::SpecTreeNode;
pub use spec_tree::StructSpec;
pub use spec_tree::EnumSpec;
