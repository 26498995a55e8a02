//! What the passes over a schema share: reading the catalog, column
//! definitions, adding columns.
pub mod alter;
pub mod column_specs;
pub mod gate;
pub mod introspection;
pub mod paged;
pub mod versions;
