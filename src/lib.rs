//! The evaluation core of a compiler from a scripting language to a
//! time-indexed trigger graph: resource ids, an arena of values, the forest
//! of execution branches, emission of objects and triggers, and the catalog
//! of built-in operations.
pub mod builtins;
pub mod context;
pub mod dispatch;
pub mod error;
pub mod globals;
pub mod host;
pub mod ids;
pub mod member;
pub mod objects;
pub mod ops;
pub mod pattern;
pub mod random;
pub mod regex_ops;
pub mod store;
pub mod text;
pub mod value;
