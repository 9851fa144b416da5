//! Random generation of schema-conformant JSON-like values.
//!
//! Given a parsed schema tree, the generator produces one randomly
//! constructed value that is valid under the schema's structural rules:
//! required object fields are always present, enum values are members of
//! the enum, discriminator objects carry the chosen tag, and so on.

pub mod conform;
pub mod gen;
pub mod laws;
pub mod rng;
pub mod schema;
pub mod timefmt;
pub mod value;
