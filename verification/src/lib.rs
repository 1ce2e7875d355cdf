//! Schema resolution and wire-encoding planning for protocol-buffers
//! message definitions, with machine-checked contracts.
//!
//! A schema file arrives as a tree of declarations whose field types are
//! still names. The library merges what the file imports, gives every
//! message and enum its identity, resolves the names, breaks reference
//! cycles by boxing fields, validates the result and plans, for every
//! field, how it is represented, read, measured and written. From the plan
//! it writes the text of the code that reads and writes the messages.

pub mod checks;
pub mod copies;
pub mod cycles;
pub mod defaults;
pub mod emit;
pub mod errors;
pub mod field_type;
pub mod graph;
pub mod index;
pub mod lifetime;
pub mod modfile;
pub mod model;
pub mod names;
pub mod options;
pub mod packages;
pub mod passes;
pub mod pipeline;
pub mod plan;
pub mod resolve;
pub mod schema;
pub mod sizeofs;
pub mod stable;
pub mod symbols;
pub mod text;
pub mod tree;
pub mod types;
pub mod typetext;
